use minos::actor::Actor;
use minos::authorization::{Authorization, AuthorizationMode, ErrorKind, Permission, Policy};
use minos::authorization_builder::{
    build_at, build_by_policy_at, define_expiration, ActorFacts, AuthorizationBuilder, ResourceFacts,
};
use minos::engine::{Actor as EngineActor, AuthorizeRequest, Engine, Resource as EngineResource};
use minos::group::GroupId;
use minos::jwt::AuthorizationClaims;
use minos::minos::lang::{
    FileVersion as FileVersion14, ListValueAttribute, ListValueOperator, SingleValueAttribute, SingleValueOperator,
};
use minos::minos::requirements::{find_in_list, Requirement};
use minos::model::assertion::Assertion;
use minos::model::attribute::{Attribute, Comparator};
use minos::model::attribute_path::AttributePath;
use minos::model::parser::FileParser;
use minos::model::permission::Permission as NamedPermission;
use minos::model::ModelError;
use minos::non_empty::NonEmptyString;
use minos::parser::v0_16::MinosParserV0_16;
use minos::parser::v0_16_m::MinosParserV0_16M;
use minos::parser::MinosParser;
use minos::resource_manifest::ResourceManifest;
use minos::resources::Resource;
use minos::text::{join_strings, split_char};
use minos::tokens::FileVersion;
use minos::Error;

fn ne(s: &str) -> NonEmptyString {
    NonEmptyString::new(s.to_string()).unwrap()
}

#[test]
fn authorization_works() {}

#[test]
fn assertion_from_str_works() {}

#[test]
fn attribute_path_from_str_works() {
    const TEXT: &str = "parent.child1.child_two.another";

    let attribute_path = Attribute::from_str(TEXT).expect("Error with attribute path parsing");

    assert_eq!(&attribute_path.to_text(), TEXT);
    println!("{attribute_path:?}");
}

#[test]
fn attribute_reads_parent_and_children() {
    let a = Attribute::from_str("actor.groups.main").unwrap();
    assert_eq!(a.parent(), "actor");
    assert_eq!(a.children(), &["groups".to_string(), "main".to_string()][..]);
    let p = AttributePath::from_str("resource.owner").unwrap();
    assert_eq!(p.parent(), "resource");
    assert_eq!(p.to_text(), "resource.owner");
}

#[test]
fn attribute_without_dot_is_refused() {
    match Attribute::from_str("nodots") {
        Err(ModelError::InvalidAssertionSyntax(s)) => assert_eq!(s, "nodots"),
        other => panic!("unexpected {other:?}"),
    }
}

#[test]
fn comparator_texts() {
    for c in [
        Comparator::Equal,
        Comparator::Distinct,
        Comparator::Minor,
        Comparator::Major,
        Comparator::MinorOrEqual,
        Comparator::MajorOrEqual,
        Comparator::Include,
    ] {
        assert_eq!(Comparator::from_str(&c.to_text()).unwrap(), c);
    }
    assert_eq!(Comparator::MinorOrEqual.to_text(), "<=");
    match Comparator::from_str("=>") {
        Err(ModelError::InvalidAssertionChar(s)) => assert_eq!(s, "=>"),
        other => panic!("unexpected {other:?}"),
    }
}

#[test]
fn assertion_reads_and_writes() {
    const TEXT: &str = "actor.failed_attempts >= environment.max_failed_attempts";
    let assertion = Assertion::from_str(TEXT).expect("Error with assertion");
    assert_eq!(assertion.operator, Comparator::MajorOrEqual);
    assert_eq!(assertion.left.parent(), "actor");
    assert_eq!(assertion.to_text(), TEXT);
    assert!(Assertion::from_str("actor.a ~ actor.b").is_err());
}

#[test]
fn split_and_join() {
    let parts = split_char("a..b.", '.');
    assert_eq!(parts, vec!["a".to_string(), "".to_string(), "b".to_string(), "".to_string()]);
    assert_eq!(join_strings(&parts, "."), "a..b.");
    assert_eq!(split_char("", '.'), vec!["".to_string()]);
}

#[test]
fn named_permission() {
    let p = NamedPermission::new("login", 1200);
    assert_eq!(p.required_msg(), "login");
    assert_eq!(p.duration, 1200);
}

#[test]
fn file_version_is_found() {
    assert!(matches!(MinosParser::get_file_version("syntax = 0.16;"), Some(FileVersion::V0_16)));
    assert!(matches!(MinosParser::get_file_version("/* a */ syntax=0.16M;"), Some(FileVersion::V0_16M)));
    assert!(MinosParser::get_file_version("syntax = 1.0;").is_none());
    assert!(MinosParser::get_file_version("no version here").is_none());
}

#[test]
fn syntax_errors_are_reported() {
    assert!(matches!(MinosParser::parse_str(FileVersion::V0_16, "syntax = 0.16; @"), Err(Error::RuleV0_16(_))));
    assert!(matches!(
        MinosParser::parse_str(FileVersion::V0_16, "syntax = 0.16; resource { }"),
        Err(Error::RuleV0_16(_))
    ));
    assert!(matches!(
        MinosParser::parse_str(FileVersion::V0_16M, "syntax = 0.16; resource A { }"),
        Err(Error::RuleV0_16M(_))
    ));
    assert!(MinosParserV0_16M::parse_file_content("syntax = 0.16M; resource A { }").is_ok());
    assert!(MinosParserV0_16::parse_file_content("syntax = 0.16; resource A { }").is_ok());
}

#[test]
fn attributed_resource_and_implicit_default_env() {
    let text = r#"syntax = 0.16;
resource Doc {
    id = "doc-1";
    policy {
        allow = ["read", "write",];
        rule { actor.id != resource.owner; }
    }
}"#;
    let storage = MinosParser::parse_str(FileVersion::V0_16, text).unwrap();
    assert_eq!(storage.resources().len(), 0);
    let doc = storage.get_attributed_resource("Doc", "doc-1").unwrap();
    assert!(doc.default_environment().is_some());
    assert_eq!(doc.policies_len(), 1);
}

#[test]
fn error_messages() {
    assert_eq!(Error::EnvironmentNotFound("X".to_string()).message(), "environment 'X' not found");
    assert_eq!(Error::PermissionNotFound("read".to_string()).message(), "permission 'read' not found");
}

#[test]
fn permission_texts() {
    assert_eq!(Permission::Create.to_text(), "create");
    assert_eq!(Permission::Delete.to_text(), "delete");
    assert_eq!(Permission::Custom("Exec".to_string()).to_text(), "custom(\"exec\")");
    assert_eq!(Permission::Update.required_msg(), "Update permission is required.");
    assert_eq!(Permission::Custom("go".to_string()).required_msg(), "Custom(\"go\") permission is required.");
    assert!(matches!(Permission::from_text("read"), Permission::Read));
    assert!(matches!(Permission::from_text("fly"), Permission::Custom(s) if s == "fly"));
    let crud = Permission::crud();
    assert_eq!(crud.len(), 4);
    assert!(matches!(crud[0], Permission::Create));
    let rud = Permission::rud();
    assert_eq!(rud.len(), 3);
    assert!(matches!(rud[0], Permission::Read));
}

#[test]
fn authorization_mode_texts() {
    for m in [
        AuthorizationMode::Owner,
        AuthorizationMode::SingleGroup,
        AuthorizationMode::MultiGroup,
        AuthorizationMode::OwnerSingleGroup,
        AuthorizationMode::OwnerMultiGroup,
    ] {
        assert_eq!(AuthorizationMode::try_from_text(&m.to_text()).unwrap(), m);
    }
    assert_eq!(AuthorizationMode::OwnerSingleGroup.to_text(), "owner and single group");
    let e = AuthorizationMode::try_from_text("nobody").unwrap_err();
    assert_eq!(e.kind(), ErrorKind::ParsePolicyMode);
    assert_eq!(e.message(), "unprocessable string");
}

fn policy(duration: u64, mode: AuthorizationMode, groups: Option<Vec<&str>>, permissions: Vec<Permission>) -> Policy {
    Policy::new(duration, mode, groups.map(|g| g.into_iter().map(ne).collect()), permissions)
}

fn facts(owner: Option<&str>, policies: Vec<Policy>) -> ResourceFacts {
    ResourceFacts { id: ne("res-1"), owner: owner.map(ne), policies, resource_type: Some(ne("Doc")) }
}

fn actor(id: &str, groups: &[&str]) -> ActorFacts {
    ActorFacts { id: ne(id), groups: groups.iter().map(|g| ne(g)).collect() }
}

#[test]
fn build_by_policy_checks_the_mode() {
    let owner_policy = policy(60, AuthorizationMode::Owner, None, vec![Permission::Read]);
    let r = facts(Some("alice"), vec![owner_policy.clone()]);
    let auth = build_by_policy_at(&r, &owner_policy, &actor("alice", &[]), 1000).unwrap();
    assert_eq!(auth.expiration(), 1060);
    assert_eq!(auth.agent_id(), "alice");
    assert_eq!(auth.resource_id(), "res-1");
    let e = build_by_policy_at(&r, &owner_policy, &actor("bob", &[]), 1000).unwrap_err();
    assert_eq!(e.kind(), ErrorKind::Authorization);
    assert_eq!(e.message(), "The actor is not the owner");
    let orphan = facts(None, vec![owner_policy.clone()]);
    let e = build_by_policy_at(&orphan, &owner_policy, &actor("alice", &[]), 1000).unwrap_err();
    assert_eq!(e.kind(), ErrorKind::IncompatibleAuthPolicy);
    let other = policy(60, AuthorizationMode::Owner, None, vec![Permission::Delete]);
    let e = build_by_policy_at(&r, &other, &actor("alice", &[]), 1000).unwrap_err();
    assert_eq!(e.message(), "The policy not corresponds to resource type");
}

#[test]
fn group_modes() {
    let single = policy(10, AuthorizationMode::SingleGroup, Some(vec!["a", "b"]), vec![Permission::Read]);
    let multi = policy(20, AuthorizationMode::MultiGroup, Some(vec!["a", "b"]), vec![Permission::Update]);
    let empty = policy(30, AuthorizationMode::MultiGroup, Some(vec![]), vec![Permission::Delete]);
    let r = facts(None, vec![single.clone(), multi.clone(), empty.clone()]);
    assert!(build_by_policy_at(&r, &single, &actor("x", &["b"]), 0).is_ok());
    assert_eq!(
        build_by_policy_at(&r, &single, &actor("x", &["c"]), 0).unwrap_err().message(),
        "The actor is not in the correct group"
    );
    assert!(build_by_policy_at(&r, &multi, &actor("x", &["b", "a"]), 0).is_ok());
    assert_eq!(
        build_by_policy_at(&r, &multi, &actor("x", &["a"]), 0).unwrap_err().message(),
        "The actor is not in all required groups"
    );
    assert_eq!(
        build_by_policy_at(&r, &empty, &actor("x", &["a"]), 0).unwrap_err().kind(),
        ErrorKind::IncompatibleAuthPolicy
    );
}

#[test]
fn build_collects_permissions_and_shortest_duration() {
    let single = policy(100, AuthorizationMode::SingleGroup, Some(vec!["a"]), vec![Permission::Read]);
    let owner = policy(50, AuthorizationMode::OwnerSingleGroup, Some(vec!["a"]), vec![Permission::Update]);
    let strangers = policy(10, AuthorizationMode::SingleGroup, Some(vec!["z"]), vec![Permission::Delete]);
    let r = facts(Some("alice"), vec![single, owner, strangers]);
    let auth = build_at(&r, &actor("alice", &["a"]), 7).unwrap();
    assert_eq!(auth.expiration(), 57);
    let perms = auth.permissions();
    assert_eq!(perms.len(), 2);
    assert!(matches!(perms[0], Permission::Read));
    assert!(matches!(perms[1], Permission::Update));
    let e = build_at(&r, &actor("bob", &["q"]), 7).unwrap_err();
    assert_eq!(e.message(), "Not authorized");
    let r2 = facts(None, vec![policy(5, AuthorizationMode::Owner, None, vec![Permission::Read])]);
    assert_eq!(build_at(&r2, &actor("bob", &[]), 7).unwrap_err().kind(), ErrorKind::IncompatibleAuthPolicy);
}

#[test]
fn expiration_wraps() {
    assert_eq!(define_expiration(10, 5), 15);
    assert_eq!(define_expiration(-10, 5), (-5i64) as u64);
}

struct Person {
    id: &'static str,
    groups: Vec<&'static str>,
}

impl Actor for Person {
    fn id(&self) -> NonEmptyString {
        ne(self.id)
    }

    fn groups(&self) -> Vec<NonEmptyString> {
        self.groups.iter().map(|g| ne(g)).collect()
    }
}

struct Doc;

impl Resource for Doc {
    fn id(&self) -> NonEmptyString {
        ne("doc")
    }

    fn owner(&self) -> Option<NonEmptyString> {
        Some(ne("alice"))
    }

    fn policies(&self) -> Vec<Policy> {
        vec![policy(3600, AuthorizationMode::Owner, None, Permission::crud())]
    }

    fn resource_type(&self) -> Option<NonEmptyString> {
        None
    }
}

#[test]
fn builder_with_traits() {
    let doc = Doc;
    let builder = AuthorizationBuilder::new(&doc);
    let alice = Person { id: "alice", groups: vec![] };
    let auth = builder.build(&alice).unwrap();
    assert_eq!(auth.permissions().len(), 4);
    assert!(auth.check("doc", &alice, Permission::Delete).is_ok());
    assert!(auth.check("other", &alice, Permission::Delete).is_err());
    let bob = Person { id: "bob", groups: vec!["x"] };
    assert!(builder.build(&bob).is_err());
    assert!(auth.check("doc", &bob, Permission::Read).is_err());
    let p = doc.policies().remove(0);
    assert!(builder.build_by_policy(&p, &alice).is_ok());
    assert!(auth.multi_permissions_check("doc", &alice, &Permission::rud()).is_ok());
}

fn sample_authorization(expiration: u64) -> Authorization {
    Authorization {
        permissions: vec![Permission::Read, Permission::Update],
        agent_id: ne("alice"),
        resource_id: ne("doc"),
        resource_type: Some(ne("Doc")),
        expiration,
    }
}

#[test]
fn check_at_reports_the_first_problem() {
    let auth = sample_authorization(100);
    assert!(auth.check_at(50, "doc", &ne("alice"), Permission::Read).is_ok());
    assert_eq!(
        auth.check_at(50, "other", &ne("alice"), Permission::Read).unwrap_err().message(),
        "Authorization created for another resource"
    );
    assert_eq!(
        auth.check_at(100, "doc", &ne("alice"), Permission::Read).unwrap_err().message(),
        "The Authorization is expired"
    );
    assert_eq!(
        auth.check_at(50, "doc", &ne("bob"), Permission::Read).unwrap_err().message(),
        "This Authorization is not for the user bob"
    );
    assert_eq!(
        auth.check_at(50, "doc", &ne("alice"), Permission::Delete).unwrap_err().message(),
        "Delete permission is required."
    );
    assert_eq!(
        auth.multi_permissions_check_at(50, "doc", &ne("alice"), &Permission::crud()).unwrap_err().message(),
        "Create permission is required."
    );
    assert!(auth.search_permission(Permission::Update).is_ok());
}

#[test]
fn claims_round_trip() {
    let auth = sample_authorization(1234);
    let claims = AuthorizationClaims::from_authorization(&auth);
    assert_eq!(claims.permissions(), &vec!["read".to_string(), "update".to_string()]);
    assert_eq!(claims.user_id(), "alice");
    assert_eq!(claims.resource_type(), "Doc");
    assert_eq!(claims.expiration(), 1234);
    let back = claims.as_authorization().unwrap();
    assert_eq!(back.agent_id(), "alice");
    assert_eq!(back.resource_id(), "doc");
    assert_eq!(back.resource_type().unwrap().get(), "Doc");
    assert!(matches!(back.permissions()[1], Permission::Update));
    let untyped = AuthorizationClaims::new(vec![], ne("a"), ne("b"), String::new(), 1);
    assert!(untyped.as_authorization().unwrap().resource_type().is_none());
    let broken = AuthorizationClaims {
        permissions: vec![],
        agent_id: String::new(),
        resource_id: "b".to_string(),
        resource_type: String::new(),
        exp: 0,
    };
    assert_eq!(broken.as_authorization().unwrap_err().kind(), ErrorKind::Authorization);
}

#[test]
fn non_empty_strings() {
    assert!(NonEmptyString::new(String::new()).is_err());
    assert_eq!(NonEmptyString::new("x".to_string()).unwrap().get(), "x");
    assert!(NonEmptyString::try_from_str("").is_none());
}

#[test]
fn group_ids() {
    let g = GroupId::new("admins");
    assert_eq!(g.as_str(), "admins");
    assert_eq!(GroupId::from("ops".to_string()).to_text(), "ops");
}

#[test]
fn syntax_0_14_kinds() {
    assert!(matches!(FileVersion14::parse("0.14"), Some(FileVersion14::V0_14)));
    assert_eq!(FileVersion14::V0_14.as_text(), "0.14");
    assert_eq!(SingleValueAttribute::parse("actor.id"), Some(SingleValueAttribute::Id));
    assert_eq!(ListValueAttribute::Roles.as_text(), "actor.roles");
    assert_eq!(SingleValueOperator::parse("!="), Some(SingleValueOperator::Distinct));
    assert_eq!(ListValueOperator::parse("*="), Some(ListValueOperator::Contains));
    assert!(ListValueOperator::parse("<").is_none());
}

const MACROS_V0_16M: &str = r#"
syntax = 0.16M;
macro admins {
    actor.roles *= ["admin"];
}
macro crud = ["create", "read", "update", "delete"];

resource Doc {
    policy {
        allow = [crud, "share"];
        rule {
            admins;
        }
        rule {
            actor.type = Owner;
            admins;
        }
    }
}
"#;

#[test]
fn macros_are_expanded() {
    let storage = MinosParser::parse_str(FileVersion::V0_16M, MACROS_V0_16M).unwrap();
    let doc = storage.get_resource("Doc").unwrap();
    let env = doc.default_environment().unwrap();
    let policy = &env.policies()[0];
    let names: Vec<&str> = policy.permissions().iter().map(|p| p.as_str()).collect();
    assert_eq!(names, vec!["create", "read", "update", "delete", "share"]);
    assert_eq!(policy.rules().len(), 2);
    assert_eq!(policy.rules()[0].requirements().len(), 1);
    assert_eq!(policy.rules()[1].requirements().len(), 2);
    let engine = Engine::new(&storage);
    let admin = EngineActor::new("User".into(), "a".into(), vec![], vec!["admin".into()]);
    let res = EngineResource::new(None, "Doc".into(), None);
    let granted = engine.authorize(AuthorizeRequest { env_name: None, actor: &admin, resource: &res }).unwrap();
    assert_eq!(granted.len(), 5);
}

#[test]
fn undefined_macro_is_reported() {
    let text = "syntax = 0.16M; resource Doc { policy { allow = [\"read\"]; rule { ghosts; } } }";
    assert_eq!(
        MinosParser::parse_str(FileVersion::V0_16M, text).unwrap_err(),
        Error::MacroNotExist("ghosts".to_string())
    );
    let text = "syntax = 0.16M; resource Doc { policy { allow = [later]; } } macro later = [\"x\"];";
    assert_eq!(
        MinosParser::parse_str(FileVersion::V0_16M, text).unwrap_err(),
        Error::MacroNotExist("later".to_string())
    );
}

#[test]
fn string_macro_in_rule_is_a_syntax_error() {
    let text = "syntax = 0.16M; macro names = [\"a\"]; resource Doc { policy { allow = [\"read\"]; rule { names; } } }";
    assert!(matches!(MinosParser::parse_str(FileVersion::V0_16M, text), Err(Error::RuleV0_16M(_))));
    let plain = "syntax = 0.16; macro names = [\"a\"];";
    assert!(matches!(MinosParser::parse_str(FileVersion::V0_16, plain), Err(Error::RuleV0_16(_))));
}

const POLICIES: &str = r#"
syntax_version = "0.10"

[[policies]]
resource_type = "blog_post"

[[policies.rules]]
permissions = ["read:30m"]
resource.status = "published"


[[policies.rules]]
permissions = [
    "read:60m",
    "write:1500ms"
]
actor.groups = ["writers"]
resource.owner = actor.id


[[policies.rules]]
permissions = ["revise:1200ms"]
actor.groups $contains ["admins"]

[[policies]]
resource_id = "SYSTEM.LOGIN.ID"

[[policies.rules]]
permissions = ["login:1200ms"]
failed_attempts >= environment.max_failed_attempts
    "#;

#[test]
fn parse_policies_from_text() {
    let parser = FileParser::new(POLICIES);
    let policies = parser.obtain_policies().expect("Error parsing policies from text");
    println!("{} policies captures", policies.len());
    assert!(!policies.is_empty());
    assert!(policies[0].starts_with("[[policies]]"));
}

#[test]
fn policy_files_need_a_compatible_version() {
    let missing = FileParser::new("[[policies]]\nresource_type = \"a\"\n");
    assert!(matches!(missing.obtain_policies(), Err(ModelError::FormatWithoutVersion)));
    let newer = FileParser::new("syntax_version = \"0.11\"\n");
    assert!(matches!(newer.obtain_policies(), Err(ModelError::InvalidVersion)));
    let same = FileParser::new("syntax_version = \"0.10\"\n");
    assert_eq!(same.obtain_policies().unwrap().len(), 0);
}

#[test]
fn built_authorization_passes_its_checks() {
    let p = policy(100, AuthorizationMode::SingleGroup, Some(vec!["a"]), vec![Permission::Read, Permission::Update]);
    let r = facts(None, vec![p]);
    let auth = build_at(&r, &actor("carol", &["a"]), 1_000).unwrap();
    assert_eq!(auth.expiration(), 1_100);
    for t in [0i64, 500, 1_099] {
        assert!(auth.check_at(t, "res-1", &ne("carol"), Permission::Read).is_ok());
        assert!(auth.check_at(t, "res-1", &ne("carol"), Permission::Update).is_ok());
    }
    assert!(auth.check_at(1_100, "res-1", &ne("carol"), Permission::Read).is_err());
}

#[test]
fn macro_free_text_reads_the_same() {
    let plain = "syntax = 0.16; resource A { env DEFAULT { policy { allow = [\"x\", \"y\"]; rule { actor.id = \"1\"; } } } }";
    let with_m = plain.replacen("0.16", "0.16M", 1);
    let a = MinosParser::parse_str(FileVersion::V0_16, plain).unwrap();
    let b = MinosParser::parse_str(FileVersion::V0_16M, &with_m).unwrap();
    assert_eq!(a.policies_len(), b.policies_len());
    let pa = &a.get_resource("A").unwrap().default_environment().unwrap().policies()[0];
    let pb = &b.get_resource("A").unwrap().default_environment().unwrap().policies()[0];
    assert_eq!(pa.permissions().len(), pb.permissions().len());
    assert_eq!(pa.rules()[0].requirements().len(), pb.rules()[0].requirements().len());
}

#[test]
fn syntax_0_14_requirements() {
    let actor = EngineActor::new("User".into(), "u1".into(), vec!["a".into(), "b".into()], vec!["admin".into()]);
    let same_type = Requirement::SingleValue {
        attribute: SingleValueAttribute::Type,
        operator: SingleValueOperator::Equal,
        value: "User".to_string(),
    };
    assert!(same_type.apply(&actor));
    let other_id = Requirement::SingleValue {
        attribute: SingleValueAttribute::Id,
        operator: SingleValueOperator::Distinct,
        value: "u1".to_string(),
    };
    assert!(!other_id.apply(&actor));
    let groups = Requirement::ListValue {
        attribute: ListValueAttribute::Groups,
        operator: ListValueOperator::Contains,
        value: vec!["b".to_string()],
    };
    assert!(groups.apply(&actor));
    let roles = Requirement::ListValue {
        attribute: ListValueAttribute::Roles,
        operator: ListValueOperator::Equal,
        value: vec!["admin".to_string(), "x".to_string()],
    };
    assert!(!roles.apply(&actor));
    assert!(find_in_list(&vec!["a".to_string()], &vec![]));
}

fn groups(v: &[Option<&str>]) -> Vec<Option<String>> {
    v.iter().map(|g| g.map(|s| s.to_string())).collect()
}

#[test]
fn readers_of_capture_groups() {
    assert!(matches!(
        MinosParser::version_in_groups(&groups(&[Some("syntax = 0.16M"), Some("0.16M")])),
        Some(FileVersion::V0_16M)
    ));
    assert!(MinosParser::version_in_groups(&groups(&[Some("syntax = 2.0"), Some("2.0")])).is_none());
    assert!(MinosParser::version_in_groups(&groups(&[Some("x")])).is_none());

    let (parent, children) =
        minos::model::attribute::read_path_groups(&groups(&[Some("a.b.c"), Some("a"), Some("b.c")]), "a.b.c").unwrap();
    assert_eq!(parent, "a");
    assert_eq!(children, vec!["b".to_string(), "c".to_string()]);
    assert!(minos::model::attribute::read_path_groups(&groups(&[Some("a"), None, None]), "a").is_err());

    let a = Assertion::from_groups(
        &groups(&[Some("x"), Some("actor.a"), Some("actor"), Some("a"), Some("<="), Some("resource.b")]),
        "x",
    )
    .unwrap();
    assert_eq!(a.operator, Comparator::MinorOrEqual);
    assert_eq!(a.right.to_text(), "resource.b");

    let all = vec![
        groups(&[Some("syntax_version = \"0.10\""), Some("0.10")]),
        groups(&[Some("[[policies]]\nresource_id = \"x\"\n"), None]),
    ];
    let sections = FileParser::policies_from_captures(&all).unwrap();
    assert_eq!(sections, vec!["[[policies]]\nresource_id = \"x\"\n".to_string()]);
    let old = vec![groups(&[Some("syntax_version = \"0.9\""), Some("0.9")])];
    assert!(matches!(FileParser::policies_from_captures(&old), Err(ModelError::InvalidVersion)));
    let empty_section = vec![groups(&[Some("v"), Some("0.10")]), groups(&[None])];
    assert!(matches!(FileParser::policies_from_captures(&empty_section), Err(ModelError::InvalidPolicyFormat)));
}

#[test]
fn checks_now_report_what_the_clock_does_not_decide() {
    let auth = sample_authorization(u64::MAX);
    let alice = Person { id: "alice", groups: vec![] };
    let bob = Person { id: "bob", groups: vec![] };
    assert!(auth.check("doc", &alice, Permission::Read).is_ok());
    assert_eq!(
        auth.check("other", &alice, Permission::Read).unwrap_err().message(),
        "Authorization created for another resource"
    );
    assert_eq!(
        auth.check("doc", &bob, Permission::Read).unwrap_err().message(),
        "This Authorization is not for the user bob"
    );
    assert_eq!(
        auth.check("doc", &alice, Permission::Delete).unwrap_err().message(),
        "Delete permission is required."
    );
    let wanted = vec![Permission::Read, Permission::Create, Permission::Delete];
    assert_eq!(
        auth.multi_permissions_check("doc", &alice, &wanted).unwrap_err().message(),
        "Create permission is required."
    );
    assert_eq!(
        auth.multi_permissions_check("doc", &bob, &wanted).unwrap_err().message(),
        "This Authorization is not for the user bob"
    );
    let expired = sample_authorization(1);
    assert_eq!(
        expired.check("doc", &alice, Permission::Read).unwrap_err().message(),
        "The Authorization is expired"
    );
}

#[test]
fn claims_with_an_empty_id_are_refused() {
    let no_resource = AuthorizationClaims {
        permissions: vec![],
        agent_id: "a".to_string(),
        resource_id: String::new(),
        resource_type: String::new(),
        exp: 0,
    };
    let e = no_resource.as_authorization().unwrap_err();
    assert_eq!(e.kind(), ErrorKind::Authorization);
    assert_eq!(e.message(), "The claims hold an empty id");
}

struct TypedDoc;

impl Resource for TypedDoc {
    fn id(&self) -> NonEmptyString {
        ne("typed")
    }

    fn owner(&self) -> Option<NonEmptyString> {
        None
    }

    fn policies(&self) -> Vec<Policy> {
        vec![policy(60, AuthorizationMode::SingleGroup, Some(vec!["g"]), vec![Permission::Read])]
    }

    fn resource_type(&self) -> Option<NonEmptyString> {
        Some(ne("Doc"))
    }
}

#[test]
fn manifest_from_what_the_resource_reports() {
    let m = ResourceManifest::try_from_resource(&TypedDoc).unwrap();
    assert_eq!(m.resource_type().get(), "Doc");
    assert!(!m.owner());
    assert_eq!(m.policies().len(), 1);
    assert_eq!(m.policies()[0].duration(), 60);
    let e = ResourceManifest::try_from_resource(&Doc).unwrap_err();
    assert_eq!(e.kind(), ErrorKind::MissingResourceType);
    assert_eq!(e.message(), "The resource needs an explicit resource type");
}

#[test]
fn build_now_follows_the_policies() {
    let builder = AuthorizationBuilder::new(&TypedDoc);
    let member = Person { id: "m", groups: vec!["g"] };
    let auth = builder.build(&member).unwrap();
    assert_eq!(auth.resource_id(), "typed");
    assert_eq!(auth.agent_id(), "m");
    assert_eq!(auth.resource_type().unwrap().get(), "Doc");
    assert!(matches!(auth.permissions()[..], [Permission::Read]));
    let stranger = Person { id: "s", groups: vec!["h"] };
    let e = builder.build(&stranger).unwrap_err();
    assert_eq!(e.kind(), ErrorKind::Authorization);
    assert_eq!(e.message(), "Not authorized");
    let p = TypedDoc.policies().remove(0);
    let e = builder.build_by_policy(&p, &stranger).unwrap_err();
    assert_eq!(e.message(), "The actor is not in the correct group");
    let owned = AuthorizationBuilder::new(&TypedDoc);
    let foreign = policy(60, AuthorizationMode::Owner, None, vec![Permission::Read]);
    assert_eq!(
        owned.build_by_policy(&foreign, &member).unwrap_err().kind(),
        ErrorKind::IncompatibleAuthPolicy
    );
}

#[test]
fn rules_identifier_of_a_policy() {
    let parser = FileParser::new("");
    let typed = "[[policies]]\nresource_type = \"Doc\"\n";
    assert_eq!(parser.obtain_rules_from_policy(typed).unwrap(), (false, "Doc".to_string()));
    let by_id = "resource_id = \"doc-7\"\n";
    assert_eq!(parser.try_obtain_rules_from_policy(by_id).unwrap().unwrap(), (true, "doc-7".to_string()));
    assert!(parser.try_obtain_rules_from_policy("nothing here").is_none());
}

#[test]
fn build_joins_passing_policies_with_the_shortest_duration() {
    let a = policy(300, AuthorizationMode::SingleGroup, Some(vec!["g"]), vec![Permission::Read]);
    let b = policy(100, AuthorizationMode::SingleGroup, Some(vec!["other"]), vec![Permission::Delete]);
    let c = policy(200, AuthorizationMode::MultiGroup, Some(vec!["g"]), vec![Permission::Update, Permission::Create]);
    let r = facts(None, vec![a, b, c]);
    let auth = build_at(&r, &actor("u", &["g"]), 1_000).unwrap();
    assert!(matches!(
        auth.permissions()[..],
        [Permission::Read, Permission::Update, Permission::Create]
    ));
    assert_eq!(auth.expiration(), 1_200);
    let owner_first = policy(50, AuthorizationMode::Owner, None, vec![Permission::Read]);
    let no_groups = policy(60, AuthorizationMode::MultiGroup, None, vec![Permission::Read]);
    let r = facts(None, vec![
        policy(300, AuthorizationMode::SingleGroup, Some(vec!["g"]), vec![Permission::Read]),
        owner_first,
        no_groups,
    ]);
    let e = build_at(&r, &actor("u", &["g"]), 1_000).unwrap_err();
    assert_eq!(e.kind(), ErrorKind::IncompatibleAuthPolicy);
    assert_eq!(e.message(), "The resource haven't an owner");
}
