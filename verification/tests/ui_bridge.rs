use std::cell::RefCell;
use std::rc::Rc;

use photon_engine::ui::{UiBridge, UltralightContext};

#[test]
fn registered_callbacks_are_called() {
    let log = Rc::new(RefCell::new(Vec::<String>::new()));
    let mut bridge: UiBridge<Box<dyn Fn(&str)>> = UiBridge::new();
    let l1 = log.clone();
    bridge.register_callback("play", Box::new(move |d: &str| l1.borrow_mut().push(format!("play:{}", d))));
    let l2 = log.clone();
    bridge.register_callback("quit", Box::new(move |d: &str| l2.borrow_mut().push(format!("quit:{}", d))));
    assert!(bridge.call("play", "map1"));
    assert!(bridge.call("quit", ""));
    assert!(!bridge.call("settings", "x"));
    assert_eq!(*log.borrow(), vec!["play:map1".to_string(), "quit:".to_string()]);
}

#[test]
fn registering_again_replaces() {
    let log = Rc::new(RefCell::new(Vec::<String>::new()));
    let mut bridge: UiBridge<Box<dyn Fn(&str)>> = UiBridge::new();
    let l1 = log.clone();
    bridge.register_callback("go", Box::new(move |_d: &str| l1.borrow_mut().push("old".to_string())));
    let l2 = log.clone();
    bridge.register_callback("go", Box::new(move |_d: &str| l2.borrow_mut().push("new".to_string())));
    assert!(bridge.call("go", ""));
    assert_eq!(*log.borrow(), vec!["new".to_string()]);
}

#[test]
fn empty_bridge_finds_nothing() {
    let bridge: UiBridge<fn(&str)> = UiBridge::new();
    assert!(!bridge.call("anything", "data"));
}

#[test]
fn ultralight_placeholder() {
    let mut ctx = UltralightContext::new();
    assert!(!ctx.initialized);
    assert!(ctx.update().is_none());
    assert!(ctx.initialize(1280, 720).is_ok());
    assert!(ctx.initialized);
    ctx.resize(640, 480);
    assert!(ctx.initialized);
    assert!(ctx.update().is_none());
}

#[test]
fn other_names_keep_their_callbacks() {
    let log = Rc::new(RefCell::new(Vec::<String>::new()));
    let mut bridge: UiBridge<Box<dyn Fn(&str)>> = UiBridge::new();
    let l = log.clone();
    bridge.register_callback("m", Box::new(move |d: &str| l.borrow_mut().push(format!("h:{}", d))));
    let l = log.clone();
    bridge.register_callback("n", Box::new(move |d: &str| l.borrow_mut().push(format!("f:{}", d))));
    let l = log.clone();
    bridge.register_callback("n", Box::new(move |d: &str| l.borrow_mut().push(format!("g:{}", d))));
    assert!(bridge.call("n", "d"));
    assert!(bridge.call("m", "d"));
    assert_eq!(*log.borrow(), vec!["g:d".to_string(), "h:d".to_string()]);
}
