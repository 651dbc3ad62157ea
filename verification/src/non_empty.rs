//! Strings that are never empty.
use vstd::prelude::*;

verus! {

/// A string of at least one character.
#[derive(Debug)]
pub struct NonEmptyString(String);

impl NonEmptyString {
    #[verifier::type_invariant]
    spec fn inv(self) -> bool {
        self.0@.len() > 0
    }

    /// The text, which is never empty.
    pub closed spec fn text(self) -> Seq<char> {
        self.0@
    }

    /// Wraps `string` when it is not empty; gives it back otherwise.
    pub fn new(string: String) -> (r: Result<NonEmptyString, String>)
        ensures
            string@.len() > 0 <==> r is Ok,
            r matches Ok(s) ==> s.text() == string@,
            r matches Err(s) ==> s@ == string@,
    {
        if string.as_str().unicode_len() == 0 {
            Err(string)
        } else {
            Ok(NonEmptyString(string))
        }
    }

    /// Wraps a copy of `s` when it is not empty.
    pub fn try_from_str(s: &str) -> (r: Option<NonEmptyString>)
        ensures
            s@.len() > 0 <==> r is Some,
            r matches Some(n) ==> n.text() == s@,
    {
        let owned = s.to_owned();
        if owned.as_str().unicode_len() == 0 {
            None
        } else {
            Some(NonEmptyString(owned))
        }
    }

    pub fn get(&self) -> (r: &str)
        ensures
            r@ == self.text(),
            r@.len() > 0,
    {
        proof {
            use_type_invariant(self);
        }
        self.0.as_str()
    }

    pub fn into_inner(self) -> (r: String)
        ensures
            r@ == self.text(),
            r@.len() > 0,
    {
        proof {
            use_type_invariant(&self);
        }
        self.0
    }

    /// Whether the two strings hold the same text.
    pub fn same(&self, other: &NonEmptyString) -> (r: bool)
        ensures
            r == (self.text() == other.text()),
    {
        crate::text::str_eq(self.0.as_str(), other.0.as_str())
    }
}

impl Clone for NonEmptyString {
    fn clone(&self) -> (r: Self)
        ensures
            r.text() == self.text(),
    {
        proof {
            use_type_invariant(self);
        }
        NonEmptyString(self.0.clone())
    }
}

impl View for NonEmptyString {
    type V = Seq<char>;

    open spec fn view(&self) -> Seq<char> {
        self.text()
    }
}

/// The texts of a list of non-empty strings.
pub open spec fn texts(v: Seq<NonEmptyString>) -> Seq<Seq<char>> {
    v.map_values(|s: NonEmptyString| s@)
}

/// Whether `list` holds a string with the text of `s`.
pub fn contains(list: &Vec<NonEmptyString>, s: &NonEmptyString) -> (r: bool)
    ensures
        r == texts(list@).contains(s@),
{
    let n = list.len();
    let mut i: usize = 0;
    while i < n
        invariant
            n == list.len(),
            0 <= i <= n,
            forall|j: int| 0 <= j < i ==> (#[trigger] list@[j])@ != s@,
        decreases n - i,
    {
        if list[i].same(s) {
            proof {
                assert(texts(list@)[i as int] == s@);
            }
            return true;
        }
        i = i + 1;
    }
    proof {
        if texts(list@).contains(s@) {
            let k = choose|k: int| 0 <= k < texts(list@).len() && texts(list@)[k] == s@;
            assert(list@[k]@ == s@);
        }
    }
    false
}

/// A copy of a list of non-empty strings.
pub fn clone_all(list: &Vec<NonEmptyString>) -> (r: Vec<NonEmptyString>)
    ensures
        texts(r@) == texts(list@),
{
    let mut out: Vec<NonEmptyString> = Vec::new();
    let n = list.len();
    let mut i: usize = 0;
    while i < n
        invariant
            n == list.len(),
            0 <= i <= n,
            out@.len() == i,
            forall|j: int| 0 <= j < i ==> (#[trigger] out@[j])@ == list@[j]@,
        decreases n - i,
    {
        out.push(list[i].clone());
        i = i + 1;
    }
    proof {
        assert(texts(out@) =~= texts(list@));
    }
    out
}

} // verus!
