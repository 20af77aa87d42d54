use rtmp_client::amf::AmfValue;
use rtmp_client::errors::Error;
use rtmp_client::net_connection::packets::AMFCommandMessage;
use rtmp_client::net_connection::transaction_manager::{TransactionManager, TransactionResult};
use std::cell::RefCell;
use std::rc::Rc;

type Callback = Box<dyn Fn(TransactionResult, AmfValue, Vec<AmfValue>)>;
type Calls = Rc<RefCell<Vec<(u32, TransactionResult, AmfValue, Vec<AmfValue>)>>>;

fn recorder(calls: &Calls, tag: u32) -> Callback {
    let calls = calls.clone();
    Box::new(move |result, object, arguments| calls.borrow_mut().push((tag, result, object, arguments)))
}

fn response(id: u32, object: Option<AmfValue>, arguments: Vec<AmfValue>) -> AMFCommandMessage {
    AMFCommandMessage {
        procedure_name: "_result".to_string(),
        transaction_id: id,
        command_object: object,
        optional_arguments: arguments,
    }
}

#[test]
fn ids_start_at_two_and_only_grow() {
    let calls: Calls = Rc::new(RefCell::new(Vec::new()));
    let mut manager: TransactionManager<Callback> = TransactionManager::new();
    let mut last = 1;
    for _ in 0..100 {
        let id = manager.initialize_transaction(recorder(&calls, 0));
        assert_eq!(id, last + 1);
        last = id;
    }
    manager.finalize_transaction(50, TransactionResult::Result, response(50, None, vec![])).unwrap();
    manager.clean_up_transaction(101);
    assert_eq!(manager.initialize_transaction(recorder(&calls, 0)), 102);
    assert!(manager.has_free_id());
}

#[test]
fn transaction_correlation() {
    let calls: Calls = Rc::new(RefCell::new(Vec::new()));
    let mut manager: TransactionManager<Callback> = TransactionManager::new();
    let first = manager.initialize_transaction(recorder(&calls, 10));
    let second = manager.initialize_transaction(recorder(&calls, 20));
    assert_eq!((first, second), (2, 3));
    let properties = AmfValue::String("properties".to_string());
    let information = AmfValue::String("information".to_string());
    manager
        .finalize_transaction(second, TransactionResult::Result, response(second, Some(properties.clone()), vec![information.clone()]))
        .unwrap();
    assert_eq!(*calls.borrow(), vec![(20, TransactionResult::Result, properties, vec![information])]);
    assert!(manager.get_transaction(second).is_none());
    assert!(manager.get_transaction(first).is_some());
    assert!(matches!(
        manager.finalize_transaction(second, TransactionResult::Result, response(second, None, vec![])),
        Err(Error::UnknownTransaction(3))
    ));
    assert_eq!(calls.borrow().len(), 1);
}

#[test]
fn errors_reach_the_callback_as_errors() {
    let calls: Calls = Rc::new(RefCell::new(Vec::new()));
    let mut manager: TransactionManager<Callback> = TransactionManager::new();
    let id = manager.initialize_transaction(recorder(&calls, 1));
    manager.finalize_transaction(id, TransactionResult::Error, response(id, None, vec![AmfValue::Bool(false)])).unwrap();
    assert_eq!(*calls.borrow(), vec![(1, TransactionResult::Error, AmfValue::Null, vec![AmfValue::Bool(false)])]);
}

#[test]
fn unknown_ids_change_nothing() {
    let calls: Calls = Rc::new(RefCell::new(Vec::new()));
    let mut manager: TransactionManager<Callback> = TransactionManager::new();
    assert!(matches!(
        manager.finalize_transaction(2, TransactionResult::Result, response(2, None, vec![])),
        Err(Error::UnknownTransaction(2))
    ));
    let id = manager.initialize_transaction(recorder(&calls, 1));
    assert!(matches!(
        manager.finalize_transaction(id + 1, TransactionResult::Result, response(id + 1, None, vec![])),
        Err(Error::UnknownTransaction(3))
    ));
    assert!(manager.get_transaction(id).is_some());
    assert!(calls.borrow().is_empty());
}

#[test]
fn clean_up_forgets_without_calling() {
    let calls: Calls = Rc::new(RefCell::new(Vec::new()));
    let mut manager: TransactionManager<Callback> = TransactionManager::new();
    let id = manager.initialize_transaction(recorder(&calls, 1));
    manager.clean_up_transaction(id);
    assert!(manager.get_transaction(id).is_none());
    manager.clean_up_transaction(id);
    assert!(calls.borrow().is_empty());
}

#[test]
fn the_session_goes_on_after_errors_that_are_set_aside() {
    assert!(!Error::UnknownUserControlEvent(9).ends_session());
    assert!(!Error::UnknownTransaction(7).ends_session());
    assert!(!Error::UnhandledMessageType(9).ends_session());
    assert!(Error::Incomplete { needed: 4 }.ends_session());
    assert!(Error::InvalidMessageTypeId(99).ends_session());
    assert!(Error::AmfDecode.ends_session());
    assert!(Error::UnknownSharedObject.ends_session());
    assert!(Error::Io(std::io::Error::from(std::io::ErrorKind::UnexpectedEof)).ends_session());
}
