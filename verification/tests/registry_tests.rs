use noise_bridge::registry::Registry;

#[test]
fn first_attach_needs_an_open() {
    let mut reg = Registry::new();
    let name = "docs".to_string();
    assert!(reg.attach_existing(&name).is_none());
    assert!(!reg.is_attached(&name));
    assert_eq!(reg.attachment_count(&name), 0);
}

#[test]
fn later_attaches_join_without_reopening() {
    // three attachments before any release: count three, one open
    let mut reg = Registry::new();
    let name = "docs".to_string();
    let mut opens = 0;
    let g1 = match reg.attach_existing(&name) {
        Some(g) => g,
        None => {
            opens += 1;
            reg.attach_opened(name.clone())
        }
    };
    let g2 = match reg.attach_existing(&name) {
        Some(g) => g,
        None => {
            opens += 1;
            reg.attach_opened(name.clone())
        }
    };
    let g3 = match reg.attach_existing(&name) {
        Some(g) => g,
        None => {
            opens += 1;
            reg.attach_opened(name.clone())
        }
    };
    assert_eq!(opens, 1);
    assert_eq!(reg.attachment_count(&name), 3);

    // releases close exactly once, at the last one
    assert!(reg.release(g1).is_none());
    assert!(reg.release(g2).is_none());
    assert_eq!(reg.attachment_count(&name), 1);
    assert_eq!(reg.release(g3), Some("docs".to_string()));
    assert!(!reg.is_attached(&name));
    assert_eq!(reg.attachment_count(&name), 0);
}

#[test]
fn attachments_on_different_names_are_independent() {
    let mut reg = Registry::new();
    let a = "alpha".to_string();
    let b = "beta".to_string();
    let ga = reg.attach_opened(a.clone());
    let gb = reg.attach_opened(b.clone());
    assert_eq!(reg.attachment_count(&a), 1);
    assert_eq!(reg.attachment_count(&b), 1);
    assert_eq!(reg.release(ga), Some("alpha".to_string()));
    assert!(reg.is_attached(&b));
    assert_eq!(reg.release(gb), Some("beta".to_string()));
}
