use red4ext_rs::{CName, Function, RttiSystem, StackFrame, ValueContainer};

fn frame(func: &str, parent: Option<StackFrame>, code: Option<usize>) -> StackFrame {
    StackFrame {
        func: CName::new(func),
        parent: parent.map(Box::new),
        code,
        locals: ValueContainer::new(0x100),
        params: ValueContainer::new(0x200),
    }
}

#[test]
fn frames_walk_to_the_root() {
    let root = frame("Main", None, Some(10));
    let mid = frame("Update", Some(root), Some(20));
    let top = frame("Native", Some(mid), None);
    let names: Vec<CName> = top.parent_iter().iter().map(|f| f.func).collect();
    assert_eq!(names, vec![CName::new("Update"), CName::new("Main")]);
    assert_eq!(top.parent().unwrap().func, CName::new("Update"));
    assert!(top.parent().unwrap().parent().unwrap().parent().is_none());
    assert!(!top.has_code());
    assert!(top.parent().unwrap().has_code());
    assert_eq!(top.locals().as_ptr(), 0x100);
    assert_eq!(top.params().as_ptr(), 0x200);
}

#[test]
fn frames_step_and_resolve() {
    let mut rtti = RttiSystem::new();
    assert!(rtti.register_function(Function::new(CName::new("Main"), CName::new("Main"), None)));
    let mut f = frame("Main", None, Some(10));
    f.step();
    assert_eq!(f.code, Some(11));
    assert_eq!(f.func(&rtti).unwrap().name(), CName::new("Main"));
    assert!(frame("Other", None, None).func(&rtti).is_none());
    assert!(frame("Other", None, None).parent_iter().is_empty());
}
