//! Small verified helpers on strings and lists of strings.
use vstd::prelude::*;

verus! {

/// The characters of a list of strings, element by element.
pub open spec fn strings_view(v: Seq<String>) -> Seq<Seq<char>> {
    v.map_values(|s: String| s@)
}

/// Whether `s` occurs in `list`.
pub open spec fn seq_has(list: Seq<Seq<char>>, s: Seq<char>) -> bool {
    exists|i: int| 0 <= i < list.len() && list[i] == s
}

/// Copies a string slice into an owned string.
pub fn owned(s: &str) -> (r: String)
    ensures
        r@ == s@,
{
    s.to_owned()
}

/// Whether two string slices hold the same characters.
pub fn str_eq(a: &str, b: &str) -> (r: bool)
    ensures
        r == (a@ == b@),
{
    let x = a.to_owned();
    let y = b.to_owned();
    x == y
}

/// Whether `list` holds a string equal to `s`.
pub fn strings_contain(list: &Vec<String>, s: &String) -> (r: bool)
    ensures
        r == seq_has(strings_view(list@), s@),
{
    let n = list.len();
    let mut i: usize = 0;
    while i < n
        invariant
            n == list.len(),
            0 <= i <= n,
            forall|j: int| 0 <= j < i ==> list@[j]@ != s@,
        decreases n - i,
    {
        if list[i] == *s {
            assert(strings_view(list@)[i as int] == s@);
            return true;
        }
        i = i + 1;
    }
    proof {
        if seq_has(strings_view(list@), s@) {
            let j = choose|j: int| 0 <= j < strings_view(list@).len() && strings_view(list@)[j] == s@;
            assert(list@[j]@ == s@);
        }
    }
    false
}

/// Element-wise equality of two string lists.
pub fn strings_eq(a: &Vec<String>, b: &Vec<String>) -> (r: bool)
    ensures
        r == (strings_view(a@) == strings_view(b@)),
{
    if a.len() != b.len() {
        proof {
            assert(strings_view(a@).len() != strings_view(b@).len());
        }
        return false;
    }
    let n = a.len();
    let mut i: usize = 0;
    while i < n
        invariant
            n == a.len(),
            n == b.len(),
            0 <= i <= n,
            forall|j: int| 0 <= j < i ==> a@[j]@ == b@[j]@,
        decreases n - i,
    {
        if a[i] != b[i] {
            assert(strings_view(a@)[i as int] != strings_view(b@)[i as int]);
            return false;
        }
        i = i + 1;
    }
    assert(strings_view(a@) =~= strings_view(b@));
    true
}

/// An owned copy of a list of strings.
pub fn clone_strings(v: &Vec<String>) -> (r: Vec<String>)
    ensures
        r@ == v@,
{
    let mut out: Vec<String> = Vec::new();
    let n = v.len();
    let mut i: usize = 0;
    while i < n
        invariant
            n == v.len(),
            0 <= i <= n,
            out@ == v@.take(i as int),
        decreases n - i,
    {
        out.push(v[i].clone());
        assert(v@.take(i + 1) == v@.take(i as int).push(v@[i as int]));
        i = i + 1;
    }
    assert(v@.take(n as int) == v@);
    out
}

/// The index of the first `d` in `s`, if `s` holds one.
pub open spec fn first_index(s: Seq<char>, d: char) -> Option<int> {
    if exists|k: int| 0 <= k < s.len() && s[k] == d {
        Some(choose|k: int| 0 <= k < s.len() && s[k] == d && forall|j: int| 0 <= j < k ==> s[j] != d)
    } else {
        None
    }
}

/// The pieces of `s` between the occurrences of `d`, as `str::split` gives them: there is
/// one more piece than there are occurrences, and pieces may be empty.
#[verifier::opaque]
pub open spec fn split_on(s: Seq<char>, d: char) -> Seq<Seq<char>>
    decreases s.len(),
{
    match first_index(s, d) {
        Some(k) => if 0 <= k < s.len() {
            seq![s.take(k)] + split_on(s.skip(k + 1), d)
        } else {
            seq![s]
        },
        None => seq![s],
    }
}

/// The pieces of `v` joined with `d` between each two of them.
pub open spec fn join_with(v: Seq<Seq<char>>, d: Seq<char>) -> Seq<char>
    decreases v.len(),
{
    if v.len() == 0 {
        Seq::empty()
    } else if v.len() == 1 {
        v[0]
    } else {
        v[0] + d + join_with(v.drop_first(), d)
    }
}

/// The first index of `d` in `s` is `k` when `s[k]` is `d` and no `d` comes before it.
pub proof fn lemma_first_index(s: Seq<char>, d: char, k: int)
    requires
        0 <= k < s.len(),
        s[k] == d,
        forall|j: int| 0 <= j < k ==> s[j] != d,
    ensures
        first_index(s, d) == Some(k),
{
    let c = choose|c: int| 0 <= c < s.len() && s[c] == d && forall|j: int| 0 <= j < c ==> s[j] != d;
    assert(0 <= c < s.len() && s[c] == d && forall|j: int| 0 <= j < c ==> s[j] != d);
    if c < k {
        assert(s[c] != d);
    } else if c > k {
        assert(s[k] != d);
    }
}

/// Splitting on a character and joining with it again gives the text back.
pub proof fn lemma_join_split(s: Seq<char>, d: char)
    ensures
        join_with(split_on(s, d), seq![d]) == s,
        split_on(s, d).len() >= 1,
    decreases s.len(),
{
    reveal(split_on);
    match first_index(s, d) {
        Some(k) => {
            let c = choose|c: int| 0 <= c < s.len() && s[c] == d && forall|j: int| 0 <= j < c ==> s[j] != d;
            assert(exists|c: int| 0 <= c < s.len() && s[c] == d);
            let w = choose|c: int| 0 <= c < s.len() && s[c] == d;
            assert(0 <= w < s.len() && s[w] == d);
            if !(0 <= c < s.len() && s[c] == d && forall|j: int| 0 <= j < c ==> s[j] != d) {
                lemma_least_index(s, d, w);
            }
            assert(k == c);
            lemma_join_split(s.skip(k + 1), d);
            let rest = split_on(s.skip(k + 1), d);
            let pieces = seq![s.take(k)] + rest;
            assert(pieces.drop_first() =~= rest);
            assert(pieces[0] == s.take(k));
            assert(s =~= s.take(k) + seq![d] + s.skip(k + 1));
        },
        None => {},
    }
}

/// When `s` holds `d`, it has a first `d`.
pub proof fn lemma_least_index(s: Seq<char>, d: char, w: int)
    requires
        0 <= w < s.len(),
        s[w] == d,
    ensures
        exists|c: int| 0 <= c < s.len() && s[c] == d && forall|j: int| 0 <= j < c ==> s[j] != d,
    decreases w,
{
    if exists|j: int| 0 <= j < w && s[j] == d {
        let j = choose|j: int| 0 <= j < w && s[j] == d;
        lemma_least_index(s, d, j);
    } else {
        assert(forall|j: int| 0 <= j < w ==> s[j] != d);
    }
}

/// A `d` at `i`, with none between `start` and `i`, ends the first piece after `start`.
proof fn lemma_split_step(s: Seq<char>, d: char, start: int, i: int)
    requires
        0 <= start <= i < s.len(),
        s[i] == d,
        forall|j: int| start <= j < i ==> s[j] != d,
    ensures
        split_on(s.skip(start), d) == seq![s.subrange(start, i)] + split_on(s.skip(i + 1), d),
{
    reveal(split_on);
    let t = s.skip(start);
    let k = i - start;
    assert forall|j: int| 0 <= j < k implies t[j] != d by {
        assert(t[j] == s[start + j]);
    }
    lemma_first_index(t, d, k);
    assert(t.take(k) =~= s.subrange(start, i));
    assert(t.skip(k + 1) =~= s.skip(i + 1));
}

/// With no `d` after `start`, what follows `start` is one piece.
proof fn lemma_split_end(s: Seq<char>, d: char, start: int)
    requires
        0 <= start <= s.len(),
        forall|j: int| start <= j < s.len() ==> s[j] != d,
    ensures
        split_on(s.skip(start), d) == seq![s.subrange(start, s.len() as int)],
{
    reveal(split_on);
    let t = s.skip(start);
    assert(t =~= s.subrange(start, s.len() as int));
    if exists|c: int| 0 <= c < t.len() && t[c] == d {
        let w = choose|c: int| 0 <= c < t.len() && t[c] == d;
        assert(t[w] == s[start + w]);
    }
}

/// Splits `s` on `d`, as `str::split` does.
pub fn split_char(s: &str, d: char) -> (r: Vec<String>)
    ensures
        strings_view(r@) == split_on(s@, d),
{
    let n = s.unicode_len();
    let mut out: Vec<String> = Vec::new();
    let mut start: usize = 0;
    let mut i: usize = 0;
    proof {
        assert(s@.skip(0) =~= s@);
        assert(strings_view(out@) =~= Seq::<Seq<char>>::empty());
        assert(split_on(s@, d) =~= strings_view(out@) + split_on(s@.skip(0), d));
    }
    while i < n
        invariant
            n == s@.len(),
            0 <= start <= i <= n,
            split_on(s@, d) == strings_view(out@) + split_on(s@.skip(start as int), d),
            forall|j: int| start <= j < i ==> s@[j] != d,
        decreases n - i,
    {
        let c = s.get_char(i);
        if c == d {
            let piece = s.substring_char(start, i).to_owned();
            proof {
                lemma_split_step(s@, d, start as int, i as int);
            }
            let ghost before = out@;
            out.push(piece);
            proof {
                assert(strings_view(out@) =~= strings_view(before).push(piece@));
                assert(split_on(s@, d) =~= strings_view(out@) + split_on(s@.skip(i + 1), d));
            }
            start = i + 1;
        }
        i = i + 1;
    }
    let last = s.substring_char(start, n).to_owned();
    proof {
        lemma_split_end(s@, d, start as int);
    }
    let ghost before = out@;
    out.push(last);
    proof {
        assert(strings_view(out@) =~= strings_view(before).push(last@));
    }
    out
}

/// Joins `v` with `d` between each two strings, as `[String]::join` does.
pub fn join_strings(v: &Vec<String>, d: &str) -> (r: String)
    ensures
        r@ == join_with(strings_view(v@), d@),
{
    let n = v.len();
    if n == 0 {
        return String::new();
    }
    let mut out = String::new();
    let mut i: usize = n;
    proof {
        assert(strings_view(v@).skip(n as int) =~= Seq::<Seq<char>>::empty());
    }
    while i > 1
        invariant
            n == v.len(),
            1 <= i <= n,
            i == n ==> out@ == Seq::<char>::empty(),
            i < n ==> out@ == d@ + join_with(strings_view(v@).skip(i as int), d@),
        decreases i,
    {
        i = i - 1;
        let ghost rest = strings_view(v@).skip(i as int);
        proof {
            assert(rest[0] == v@[i as int]@);
            if i + 1 < n {
                assert(rest.drop_first() =~= strings_view(v@).skip(i + 1));
            } else {
                assert(rest.len() == 1);
            }
        }
        let mut piece = d.to_owned();
        piece.append(v[i].as_str());
        piece.append(out.as_str());
        out = piece;
    }
    let mut r = v[0].clone();
    r.append(out.as_str());
    proof {
        let all = strings_view(v@);
        if n > 1 {
            assert(all.drop_first() =~= all.skip(1));
        }
    }
    r
}

} // verus!
