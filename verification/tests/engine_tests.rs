use minos::engine::{
    Actor, AsActor, AsResource, AuthorizeRequest, Engine, FindPermissionRequest, FindPermissionsRequest, Resource,
    TryIntoActor,
};
use minos::engine::container::Container;
use minos::engine::engine_info::{Criteria, EngineInfo};
use minos::language::environment::DEFAULT_ENV_IDENTIFIER;
use minos::language::storage::Storage;
use minos::parser::MinosParser;
use minos::tokens::FileVersion;
use minos::{Error, MinosResult};

const MINOS_V0_16_FILE_CONTENT: &str = r#"
syntax = 0.16;
/* Example Commentary */
resource User {
    env DEFAULT {
        policy {
            allow = ["create", "read", "update", "delete"];

            rule {
                actor.type = RootUser;
            }

            rule {
                actor.type = resource.type;
                actor.id = resource.id;
            }

            rule {
                resource.owner = actor.id;
            }
        }
    }
}

"#;

const SIMULATION_V0_16: &str = r#"
syntax = 0.16;

// Files: their owner and the File group read them, admins do anything.
resource File {
    env DEFAULT {
        policy {
            allow = ["read"];
            rule {
                actor.groups *= ["File"];
            }
            rule {
                actor.id = resource.owner;
            }
        }
        policy {
            allow = ["create", "read", "update", "delete"];
            rule {
                actor.roles *= ["admin"];
            }
        }
    }
    env TEST {
        policy {
            allow = ["create", "read", "update", "delete"];
            rule {
                actor.roles *= ["guest"];
            }
        }
    }
}

resource Application {
    env STD {
        policy {
            allow = ["execute"];
            rule {
                actor.type = User;
            }
            rule {
                actor.type = SuperUser;
            }
        }
        policy {
            allow = ["install", "update"];
            rule {
                actor.roles *= ["application manager"];
            }
            rule {
                actor.type = SuperUser;
            }
        }
    }
    env ROOT {
        policy {
            allow = ["install", "uninstall", "update", "execute"];
            rule {
                actor.type = SuperUser;
            }
        }
    }
}

resource Application {
    id = "app.application-store";
    env STD {
        policy {
            allow = ["execute"];
            rule {
                actor.type = User;
            }
        }
        policy {
            allow = ["update"];
            rule {
                actor.type = SuperUser;
            }
        }
    }
}
"#;

fn simulation_storage() -> Storage {
    MinosParser::parse_str(FileVersion::V0_16, SIMULATION_V0_16).unwrap()
}

fn strings(v: &[&str]) -> Vec<String> {
    v.iter().map(|s| s.to_string()).collect()
}

#[test]
fn parse_file_content_works() -> MinosResult<()> {
    let storage = MinosParser::parse_str(FileVersion::V0_16, MINOS_V0_16_FILE_CONTENT)?;
    let resources = storage.resources();
    assert_eq!(resources.len(), 1);
    let environments = storage.get_resource("User").unwrap().environments();
    assert_eq!(environments.len(), 1);
    let policies = storage.get_resource("User").unwrap().get_environment(DEFAULT_ENV_IDENTIFIER).unwrap().policies();
    assert_eq!(policies.len(), 1);
    let rules = policies.first().unwrap().rules();
    assert_eq!(rules.len(), 3);

    Ok(())
}

#[test]
fn simple_authorize_works() -> MinosResult<()> {
    let storage = MinosParser::parse_str(FileVersion::V0_16, MINOS_V0_16_FILE_CONTENT)?;
    let user = Actor::new("User".into(), "Example.user.id".into(), vec![], vec![]);
    let resource = Resource::new(Some("Example.user.id".into()), "User".into(), None);
    let engine = Engine::new(&storage);
    let permissions = engine.authorize(AuthorizeRequest { env_name: None, resource: &resource, actor: &user })?;

    assert_eq!(permissions.as_slice(), strings(&["create", "read", "update", "delete"]).as_slice());

    Ok(())
}

#[test]
fn simple_find_permission_works() {
    let storage = MinosParser::parse_str(FileVersion::V0_16, MINOS_V0_16_FILE_CONTENT).unwrap();
    let user = Actor::new("User".into(), "Example.user.id".into(), vec![], vec![]);
    let resource = Resource::new(Some("Example.user.id".into()), "User".into(), None);
    let engine = Engine::new(&storage);
    let result = engine.find_permission(FindPermissionRequest {
        env_name: None,
        resource: &resource,
        actor: &user,
        permission: "create".to_string(),
    });

    assert!(result.is_ok());
}

#[test]
fn simple_find_permissions_works() {
    let storage = MinosParser::parse_str(FileVersion::V0_16, MINOS_V0_16_FILE_CONTENT).unwrap();
    let user = Actor::new("User".into(), "Example.user.id".into(), vec![], vec![]);
    let resource = Resource::new(Some("Example.user.id".into()), "User".into(), None);
    let engine = Engine::new(&storage);
    let result = engine.find_permissions(FindPermissionsRequest {
        env_name: None,
        resource: &resource,
        actor: &user,
        permissions: strings(&["create", "read"]),
    });

    assert!(result.is_ok());
}

#[test]
fn file_simulation_works() -> MinosResult<()> {
    let storage = simulation_storage();
    let engine = Engine::new(&storage);
    let user2 = Actor::new("User".into(), "user2".into(), vec!["File".into()], vec![]);
    let config_file = Resource::new(Some("app.conf".into()), "File".into(), Some("user1".into()));

    let operation_result = engine.find_permission(FindPermissionRequest {
        env_name: None,
        actor: &user2,
        resource: &config_file,
        permission: "read".to_string(),
    });
    assert!(operation_result.is_ok());

    let user1 = Actor::new("User".into(), "user1".into(), vec![], vec!["admin".into()]);
    let operation_result = engine.find_permission(FindPermissionRequest {
        env_name: None,
        actor: &user1,
        resource: &config_file,
        permission: "delete".to_string(),
    });
    assert!(operation_result.is_ok());

    let guest_user = Actor::new("User".into(), "GUEST.USER".into(), vec![], vec!["guest".into()]);
    let operation_result = engine.find_permission(FindPermissionRequest {
        env_name: None,
        actor: &guest_user,
        resource: &config_file,
        permission: "read".to_string(),
    });
    assert!(operation_result.is_err());

    let operation_result = engine.find_permission(FindPermissionRequest {
        env_name: Some("TEST"),
        actor: &guest_user,
        resource: &config_file,
        permission: "delete".to_string(),
    });
    assert!(operation_result.is_ok());

    let permissions = engine.authorize(AuthorizeRequest { env_name: Some("TEST"), actor: &guest_user, resource: &config_file })?;
    assert_eq!(permissions.len(), 4);

    Ok(())
}

struct User {
    pub id: String,
    pub is_sudoer: bool,
    pub roles: Vec<String>,
}

impl User {
    fn sudo(&self) -> Result<SuperUser, &'static str> {
        if !self.is_sudoer {
            Err("the user cannot be a superuser")?;
        }

        Ok(SuperUser { id: self.id.clone(), valid: true })
    }
}

impl AsActor for User {
    fn as_actor(&self) -> Actor {
        Actor::new("User".into(), self.id.clone(), vec![], Actor::transform_list(&self.roles))
    }
}

struct SuperUser {
    pub id: String,
    pub valid: bool,
}

impl TryIntoActor for SuperUser {
    type Error = &'static str;
    fn try_into_actor(self) -> Result<Actor, Self::Error> {
        if !self.valid {
            Err("the superuser has expired")?;
        }

        Ok(Actor::new("SuperUser".into(), self.id.clone(), vec![], vec![]))
    }
}

struct Application {
    pub id: String,
    pub name: String,
    pub path: String,
    pub executing_environment: String,
}

impl Application {
    fn check(&self, minos_engine: &Engine, actor: &Actor, permission: &str) -> Result<(), String> {
        minos_engine
            .find_permission(FindPermissionRequest {
                env_name: Some(&self.executing_environment),
                actor,
                resource: &self.as_resource(),
                permission: permission.to_string(),
            })
            .map_err(|err| err.message())
    }

    fn install(&self, minos_engine: &Engine, actor: &Actor) -> Result<(), String> {
        self.check(minos_engine, actor, "install")?;
        println!("Installing application {} in {}...", &self.name, &self.path);
        Ok(())
    }

    fn execute(&self, minos_engine: &Engine, actor: &Actor) -> Result<(), String> {
        self.check(minos_engine, actor, "execute")?;
        println!("Executing application {}...", &self.name);
        Ok(())
    }

    fn uninstall(&self, minos_engine: &Engine, actor: &Actor) -> Result<(), String> {
        self.check(minos_engine, actor, "uninstall")?;
        println!("Uninstalling application {} from {}...", &self.name, &self.path);
        Ok(())
    }

    fn update(&self, minos_engine: &Engine, actor: &Actor) -> Result<(), String> {
        self.check(minos_engine, actor, "update")?;
        println!("Updating application {}...", &self.name);
        Ok(())
    }
}

impl AsResource for Application {
    fn as_resource(&self) -> Resource {
        Resource::new(Some(self.id.clone()), "Application".into(), Some("OS".into()))
    }
}

#[test]
fn application_simulation_works() {
    let storage = simulation_storage();
    let engine = Engine::new(&storage);
    let john_user = User { id: "John".to_string(), is_sudoer: true, roles: vec![] };

    let jane_user = User { id: "Jane".to_string(), is_sudoer: false, roles: vec!["application manager".to_string()] };

    let mut chromium = Application {
        id: "app.chromium".to_string(),
        name: "Chromium".to_string(),
        path: "/usr/bin/chromium".to_string(),
        executing_environment: "STD".to_string(),
    };

    let operation_result = chromium.execute(&engine, &john_user.as_actor());
    assert!(operation_result.is_ok());

    let firefox = Application {
        id: "app.firefox".to_string(),
        name: "Firefox".to_string(),
        path: "/usr/bin/firefox".to_string(),
        executing_environment: "STD".to_string(),
    };

    let operation_result = firefox.install(&engine, &jane_user.as_actor());
    assert!(operation_result.is_ok());
    let operation_result = firefox.execute(&engine, &jane_user.as_actor());
    assert!(operation_result.is_ok());

    chromium.executing_environment = "ROOT".to_string();
    let john_sudo = john_user.sudo().unwrap();
    let operation_result = chromium.uninstall(&engine, &john_sudo.try_into_actor().unwrap());
    assert!(operation_result.is_ok());

    let application_store = Application {
        id: "app.application-store".to_string(),
        name: "Market".to_string(),
        path: "/usr/bin/store".to_string(),
        executing_environment: "STD".to_string(),
    };

    let operation_result = application_store.uninstall(&engine, &jane_user.as_actor());
    assert!(operation_result.is_err());

    let john_sudo = john_user.sudo().unwrap();
    let operation_result = application_store.update(&engine, &john_sudo.try_into_actor().unwrap());
    assert!(operation_result.is_ok());

    let operation_result = application_store.execute(&engine, &john_user.as_actor());
    assert!(operation_result.is_ok());
}

#[test]
fn jane_cannot_become_superuser() {
    let jane_user = User { id: "Jane".to_string(), is_sudoer: false, roles: vec![] };
    assert!(jane_user.sudo().is_err());
}

#[test]
fn authorize_unknown_resource_fails() {
    let storage = simulation_storage();
    let engine = Engine::new(&storage);
    let actor = Actor::new("User".into(), "u".into(), vec![], vec![]);
    let resource = Resource::new(None, "Printer".into(), None);
    let r = engine.authorize(AuthorizeRequest { env_name: None, actor: &actor, resource: &resource });
    assert_eq!(r.unwrap_err(), Error::ResourceNotFound("Printer".to_string()));
}

#[test]
fn authorize_unknown_environment_fails() {
    let storage = simulation_storage();
    let engine = Engine::new(&storage);
    let actor = Actor::new("User".into(), "u".into(), vec![], vec![]);
    let resource = Resource::new(None, "File".into(), None);
    let r = engine.authorize(AuthorizeRequest { env_name: Some("PROD"), actor: &actor, resource: &resource });
    assert_eq!(r.unwrap_err(), Error::EnvironmentNotFound("PROD".to_string()));
}

#[test]
fn authorize_without_permissions_fails() {
    let storage = simulation_storage();
    let engine = Engine::new(&storage);
    let actor = Actor::new("Robot".into(), "r2".into(), vec![], vec![]);
    let resource = Resource::new(None, "File".into(), None);
    let r = engine.authorize(AuthorizeRequest { env_name: None, actor: &actor, resource: &resource });
    assert_eq!(r.unwrap_err(), Error::ActorNotAuthorized("r2".to_string()));
}

#[test]
fn find_permission_reports_the_missing_permission() {
    let storage = simulation_storage();
    let engine = Engine::new(&storage);
    let actor = Actor::new("User".into(), "someone".into(), vec!["File".into()], vec![]);
    let resource = Resource::new(None, "File".into(), None);
    let r = engine.find_permission(FindPermissionRequest {
        env_name: None,
        actor: &actor,
        resource: &resource,
        permission: "delete".to_string(),
    });
    assert_eq!(r.unwrap_err(), Error::PermissionNotFound("delete".to_string()));
}

#[test]
fn find_permissions_names_the_whole_list() {
    let storage = simulation_storage();
    let engine = Engine::new(&storage);
    let actor = Actor::new("User".into(), "someone".into(), vec!["File".into()], vec![]);
    let resource = Resource::new(None, "File".into(), None);
    let r = engine.find_permissions(FindPermissionsRequest {
        env_name: None,
        actor: &actor,
        resource: &resource,
        permissions: strings(&["read", "delete"]),
    });
    assert_eq!(r.unwrap_err(), Error::PermissionNotFound("read, delete".to_string()));
}

#[test]
fn permission_found_iff_authorized() {
    let storage = simulation_storage();
    let engine = Engine::new(&storage);
    let actor = Actor::new("User".into(), "someone".into(), vec!["File".into()], vec![]);
    let resource = Resource::new(None, "File".into(), None);
    let granted = engine.authorize(AuthorizeRequest { env_name: None, actor: &actor, resource: &resource }).unwrap();
    for p in ["create", "read", "update", "delete"] {
        let found = engine
            .actor_has_permission(FindPermissionRequest {
                env_name: None,
                actor: &actor,
                resource: &resource,
                permission: p.to_string(),
            })
            .unwrap();
        assert_eq!(found, granted.has(p));
    }
}

#[test]
fn actor_has_permissions_needs_all() {
    let storage = simulation_storage();
    let engine = Engine::new(&storage);
    let actor = Actor::new("User".into(), "someone".into(), vec!["File".into()], vec![]);
    let resource = Resource::new(None, "File".into(), None);
    let all = engine
        .actor_has_permissions(FindPermissionsRequest {
            env_name: None,
            actor: &actor,
            resource: &resource,
            permissions: strings(&["read", "delete"]),
        })
        .unwrap();
    assert!(!all);
    let only_read = engine
        .actor_has_permissions(FindPermissionsRequest {
            env_name: None,
            actor: &actor,
            resource: &resource,
            permissions: strings(&["read"]),
        })
        .unwrap();
    assert!(only_read);
}

#[test]
fn engine_info_counts_policies() {
    let storage = simulation_storage();
    let info = EngineInfo::new(&storage);
    assert_eq!(info.policies_len(None), 8);
    assert_eq!(info.policies_len(Some(Criteria::ResourceType("File"))), 3);
    assert_eq!(info.policies_len(Some(Criteria::ResourceType("Printer"))), 0);
    assert_eq!(info.policies_len(Some(Criteria::ResourceId("app.application-store"))), 2);
    assert_eq!(info.policies_len(Some(Criteria::ResourceId("nothing"))), 0);
    assert_eq!(info.resources_len(), 2);
    assert_eq!(info.attr_resources_len(), 1);
    let names: Vec<String> = info.resources_names().iter().map(|i| i.0.clone()).collect();
    assert_eq!(names, strings(&["File", "Application"]));
    let attr_names = info.attr_resources_names();
    assert_eq!(attr_names.len(), 1);
    assert_eq!(attr_names[0].0 .0, "Application");
    assert_eq!(attr_names[0].1, "app.application-store");
    let by_type = info.policies(Some(Criteria::ResourceType("Application")));
    assert_eq!(by_type.len(), 1);
    assert_eq!(by_type[0].1.len(), 3);
    let by_id = info.policies(Some(Criteria::ResourceId("app.application-store")));
    assert_eq!(by_id.len(), 1);
    assert_eq!(by_id[0].1.len(), 2);
}

#[test]
fn container_merges_loaded_storages() {
    let container = Container::new("1".to_string(), "Test Container".to_string(), vec!["/policies".to_string()]);
    let a = MinosParser::parse_str(FileVersion::V0_16, MINOS_V0_16_FILE_CONTENT).unwrap();
    let b = MinosParser::parse_str(FileVersion::V0_16, MINOS_V0_16_FILE_CONTENT).unwrap();
    let loaded = container.load(vec![a, b]);
    assert_eq!(loaded.id, "1");
    assert_eq!(loaded.storage().resources().len(), 1);
    assert_eq!(loaded.storage().policies_len(), 2);
    let engine = loaded.engine();
    assert_eq!(engine.policies_len(), 2);
}

#[test]
fn storage_merge_adds_policies() {
    let mut a = MinosParser::parse_str(FileVersion::V0_16, MINOS_V0_16_FILE_CONTENT).unwrap();
    let b = simulation_storage();
    let before = a.policies_len();
    let other = b.policies_len();
    a.merge(b);
    assert_eq!(a.policies_len(), before + other);
    assert_eq!(a.resources().len(), 3);
}

#[test]
fn merging_storages_is_associative() {
    let text_a = "syntax = 0.16; resource R { env DEFAULT { policy { allow = [\"a\"]; rule { actor.type = T; } } } }";
    let text_b = "syntax = 0.16; resource R { env DEFAULT { policy { allow = [\"b\"]; rule { actor.type = T; } } } }";
    let text_c = "syntax = 0.16; resource R { env DEFAULT { policy { allow = [\"c\"]; rule { actor.type = T; } } } }";
    let parse = |t: &str| MinosParser::parse_str(FileVersion::V0_16, t).unwrap();
    let mut left = parse(text_a);
    left.merge(parse(text_b));
    left.merge(parse(text_c));
    let mut bc = parse(text_b);
    bc.merge(parse(text_c));
    let mut right = parse(text_a);
    right.merge(bc);
    let actor = Actor::new("T".into(), "t".into(), vec![], vec![]);
    let resource = Resource::new(None, "R".into(), None);
    let l = Engine::new(&left).authorize(AuthorizeRequest { env_name: None, actor: &actor, resource: &resource }).unwrap();
    let r = Engine::new(&right).authorize(AuthorizeRequest { env_name: None, actor: &actor, resource: &resource }).unwrap();
    assert_eq!(l.as_slice(), r.as_slice());
    assert_eq!(l.as_slice(), strings(&["a", "b", "c"]).as_slice());
}

#[test]
fn merging_an_empty_storage_changes_nothing() {
    let mut s = MinosParser::parse_str(FileVersion::V0_16, MINOS_V0_16_FILE_CONTENT).unwrap();
    let before = s.policies_len();
    s.merge(Storage::default());
    assert_eq!(s.policies_len(), before);
    assert_eq!(s.resources().len(), 1);
}
