use red4ext_rs::fnv1a64;
use red4ext_rs::res::{RaRef, ResRef, ResourcePath, ResourcePathError};

#[test]
fn resource_path() {
    assert_eq!(ResourcePath::default(), ResourcePath { hash: 0 });

    const TOO_LONG: &str = "base\\some\\archive\\path\\that\\is\\very\\very\\very\\very\\very\\very\\very\\very\\very\\very\\very\\very\\very\\very\\very\\very\\very\\very\\very\\very\\very\\very\\very\\very\\very\\very\\very\\very\\very\\very\\very\\very\\very\\long\\and\\above\\216\\bytes";
    assert!(TOO_LONG.as_bytes().len() > ResourcePath::MAX_LENGTH);
    assert!(ResourcePath::new(TOO_LONG).is_err());

    assert_eq!(
        ResourcePath::new("\'base/somewhere/in/archive/\'").unwrap(),
        ResourcePath {
            hash: fnv1a64("base\\somewhere\\in\\archive")
        }
    );
    assert_eq!(
        ResourcePath::new("\"MULTI\\\\SOMEWHERE\\\\IN\\\\ARCHIVE\"").unwrap(),
        ResourcePath {
            hash: fnv1a64("multi\\somewhere\\in\\archive")
        }
    );
    assert!(ResourcePath::new("..\\somewhere\\in\\archive\\custom.ent").is_err());
    assert!(ResourcePath::new("base\\somewhere\\in\\archive\\custom.ent").is_ok());
    assert!(ResourcePath::new("custom.ent").is_ok());
    assert!(ResourcePath::new(".custom.ent").is_ok());
}

#[test]
fn res_path() {
    assert!(ResRef::new("").is_err());
    assert!(ResRef::new("../somewhere/in/archive/custom.ent").is_err());
    assert!(ResRef::new("base/somewhere/in/archive/custom.ent").is_ok());
    assert!(ResRef::new("custom.ent").is_ok());
    assert!(ResRef::new(".custom.ent").is_ok());
}

#[test]
fn resource_path_errors() {
    assert_eq!(ResourcePath::new(""), Err(ResourcePathError::Empty));
    assert_eq!(ResourcePath::new("'\"/\\\\//\"'"), Err(ResourcePathError::Empty));
    let long = "a".repeat(217);
    assert_eq!(ResourcePath::new(&long), Err(ResourcePathError::TooLong));
    let edge = "a".repeat(216);
    assert!(ResourcePath::new(&edge).is_ok());
    assert_eq!(ResourcePath::new("base\\..\\x"), Err(ResourcePathError::NotCanonical));
    assert_eq!(ResourcePath::new(".\\x"), Err(ResourcePathError::NotCanonical));
    assert_eq!(ResourcePath::new("C:\\x"), Err(ResourcePathError::NotCanonical));
    assert!(ResourcePath::new("base\\...\\x").is_ok());
    assert!(ResourcePath::new("base\\.x\\..y").is_ok());
}

#[test]
fn resource_path_canonical_form() {
    let a = ResourcePath::new("//Base///Mod\\\\Character.ENT//").unwrap();
    assert_eq!(a.hash(), fnv1a64("base\\mod\\character.ent"));
    let r = RaRef::new("base/x").unwrap();
    assert_eq!(r.path, ResourcePath::new("BASE\\X").unwrap());
    let rr = ResRef::new("'base/x'").unwrap();
    assert_eq!(rr.resource, r);
    assert_ne!(ResourcePath::new("base\\y").unwrap(), a);
}
