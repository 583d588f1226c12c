use bitcoin::util::psbt::raw::Key;
use bitcoin::util::psbt::PartiallySignedTransaction;
use sapio::clause::Clause;
use sapio::emulator::{federate, CTVEmulator, EmulatorError, FederatedEmulatorConnection};
use std::sync::atomic::{AtomicUsize, Ordering};
use std::sync::Arc;

/// A signer that answers with its key and marks what it signs with its tag.
struct KeySigner {
    tag: u8,
    asked: Arc<AtomicUsize>,
    signed: Arc<AtomicUsize>,
}

/// A signer that always fails.
struct Broken {
    message: String,
    asked: Arc<AtomicUsize>,
    signed: Arc<AtomicUsize>,
}

fn marks() -> Key {
    Key { type_value: 0xF0, key: vec![1] }
}

impl CTVEmulator for KeySigner {
    fn get_signer_for(&self, h: [u8; 32]) -> Result<Clause, EmulatorError> {
        self.asked.fetch_add(1, Ordering::SeqCst);
        Ok(Clause::Key(vec![self.tag, h[0]]))
    }

    fn sign(&self, mut b: PartiallySignedTransaction) -> Result<PartiallySignedTransaction, EmulatorError> {
        self.signed.fetch_add(1, Ordering::SeqCst);
        b.global.unknown.entry(marks()).or_insert_with(Vec::new).push(self.tag);
        Ok(b)
    }
}

impl CTVEmulator for Broken {
    fn get_signer_for(&self, _h: [u8; 32]) -> Result<Clause, EmulatorError> {
        self.asked.fetch_add(1, Ordering::SeqCst);
        Err(EmulatorError::Backend(self.message.clone()))
    }

    fn sign(&self, _b: PartiallySignedTransaction) -> Result<PartiallySignedTransaction, EmulatorError> {
        self.signed.fetch_add(1, Ordering::SeqCst);
        Err(EmulatorError::Backend(self.message.clone()))
    }
}

struct Counters {
    asked: Vec<Arc<AtomicUsize>>,
    signed: Vec<Arc<AtomicUsize>>,
}

impl Counters {
    fn asked(&self) -> Vec<usize> {
        self.asked.iter().map(|c| c.load(Ordering::SeqCst)).collect()
    }

    fn signed(&self) -> Vec<usize> {
        self.signed.iter().map(|c| c.load(Ordering::SeqCst)).collect()
    }
}

/// Children by tag: a tag of zero stands for a broken child.
fn children(tags: &[u8]) -> (Vec<Arc<dyn CTVEmulator>>, Counters) {
    let mut emulators: Vec<Arc<dyn CTVEmulator>> = Vec::new();
    let mut counters = Counters { asked: Vec::new(), signed: Vec::new() };
    for (position, tag) in tags.iter().enumerate() {
        let asked = Arc::new(AtomicUsize::new(0));
        let signed = Arc::new(AtomicUsize::new(0));
        counters.asked.push(asked.clone());
        counters.signed.push(signed.clone());
        if *tag == 0 {
            emulators.push(Arc::new(Broken { message: format!("child {}", position), asked, signed }));
        } else {
            emulators.push(Arc::new(KeySigner { tag: *tag, asked, signed }));
        }
    }
    (emulators, counters)
}

fn unsigned() -> PartiallySignedTransaction {
    let tx = bitcoin::Transaction { version: 2, lock_time: 0, input: Vec::new(), output: Vec::new() };
    match PartiallySignedTransaction::from_unsigned_tx(tx) {
        Ok(b) => b,
        Err(e) => panic!("no transaction: {:?}", e),
    }
}

fn own_error(message: &str) -> EmulatorError {
    EmulatorError::Backend(message.to_string())
}

#[test]
fn threshold_over_all_children_in_order() {
    let (emulators, counters) = children(&[3, 1, 2]);
    let federation = FederatedEmulatorConnection::new(emulators, 2);
    assert_eq!(
        federation.get_signer_for([9; 32]),
        Ok(Clause::Threshold(
            2,
            vec![Clause::Key(vec![3, 9]), Clause::Key(vec![1, 9]), Clause::Key(vec![2, 9])]
        ))
    );
    assert_eq!(counters.asked(), vec![1, 1, 1]);
    assert_eq!(counters.signed(), vec![0, 0, 0]);
}

#[test]
fn threshold_is_taken_as_given() {
    let (emulators, _) = children(&[1]);
    let federation = FederatedEmulatorConnection::new(emulators, 200);
    assert_eq!(
        federation.get_signer_for([0; 32]),
        Ok(Clause::Threshold(200, vec![Clause::Key(vec![1, 0])]))
    );
}

#[test]
fn federation_without_children() {
    let federation = FederatedEmulatorConnection::new(Vec::new(), 0);
    assert_eq!(federation.get_signer_for([0; 32]), Ok(Clause::Threshold(0, Vec::new())));
    assert_eq!(federation.sign(unsigned()), Ok(unsigned()));
    assert_eq!(federation.gather([0; 32]), Vec::new());
}

#[test]
fn first_failure_ends_get_signer_for() {
    let (emulators, counters) = children(&[1, 0, 2, 0]);
    let federation = FederatedEmulatorConnection::new(emulators, 2);
    assert_eq!(federation.get_signer_for([5; 32]), Err(own_error("child 1")));
    assert_eq!(counters.asked(), vec![1, 1, 0, 0]);
}

#[test]
fn failure_of_the_first_child_asks_no_other() {
    let (emulators, counters) = children(&[0, 1, 2]);
    let federation = FederatedEmulatorConnection::new(emulators, 1);
    assert_eq!(federation.get_signer_for([5; 32]), Err(own_error("child 0")));
    assert_eq!(counters.asked(), vec![1, 0, 0]);
}

#[test]
fn failure_of_the_last_child_asks_all() {
    let (emulators, counters) = children(&[1, 2, 0]);
    let federation = FederatedEmulatorConnection::new(emulators, 1);
    assert_eq!(federation.get_signer_for([5; 32]), Err(own_error("child 2")));
    assert_eq!(counters.asked(), vec![1, 1, 1]);
}

#[test]
fn gather_stops_after_the_first_failure() {
    let (emulators, counters) = children(&[4, 0, 5]);
    let federation = FederatedEmulatorConnection::new(emulators, 1);
    assert_eq!(
        federation.gather([8; 32]),
        vec![Ok(Clause::Key(vec![4, 8])), Err(EmulatorError::Backend("child 1".to_string()))]
    );
    assert_eq!(counters.asked(), vec![1, 1, 0]);
}

#[test]
fn sign_goes_through_the_children_in_order() {
    let (emulators, counters) = children(&[3, 1, 2]);
    let federation = FederatedEmulatorConnection::new(emulators, 2);
    let signed = match federation.sign(unsigned()) {
        Ok(b) => b,
        Err(e) => panic!("unexpected {:?}", e),
    };
    assert_eq!(signed.global.unknown.get(&marks()), Some(&vec![3, 1, 2]));
    assert_eq!(counters.signed(), vec![1, 1, 1]);
    assert_eq!(counters.asked(), vec![0, 0, 0]);
}

#[test]
fn first_failure_ends_sign() {
    let (emulators, counters) = children(&[1, 2, 0, 3]);
    let federation = FederatedEmulatorConnection::new(emulators, 2);
    assert_eq!(federation.sign(unsigned()), Err(own_error("child 2")));
    assert_eq!(counters.signed(), vec![1, 1, 1, 0]);
}

#[test]
fn federations_nest() {
    let (inner_children, inner_counters) = children(&[1, 2]);
    let inner = FederatedEmulatorConnection::new(inner_children, 1);
    let (mut outer_children, _) = children(&[7]);
    outer_children.push(Arc::new(inner));
    let outer = FederatedEmulatorConnection::new(outer_children, 2);
    assert_eq!(
        outer.get_signer_for([0; 32]),
        Ok(Clause::Threshold(
            2,
            vec![
                Clause::Key(vec![7, 0]),
                Clause::Threshold(1, vec![Clause::Key(vec![1, 0]), Clause::Key(vec![2, 0])]),
            ]
        ))
    );
    let signed = match outer.sign(unsigned()) {
        Ok(b) => b,
        Err(e) => panic!("unexpected {:?}", e),
    };
    assert_eq!(signed.global.unknown.get(&marks()), Some(&vec![7, 1, 2]));
    assert_eq!(inner_counters.asked(), vec![1, 1]);
}

#[test]
fn nested_failure_comes_back_unchanged() {
    let (inner_children, _) = children(&[1, 0]);
    let inner = FederatedEmulatorConnection::new(inner_children, 1);
    let (mut outer_children, outer_counters) = children(&[7]);
    outer_children.push(Arc::new(inner));
    let (mut more, more_counters) = children(&[8]);
    outer_children.append(&mut more);
    let outer = FederatedEmulatorConnection::new(outer_children, 2);
    assert_eq!(
        outer.get_signer_for([0; 32]),
        Err(own_error("child 1"))
    );
    assert_eq!(outer_counters.asked(), vec![1]);
    assert_eq!(more_counters.asked(), vec![0]);
}

#[test]
fn federate_joins_answers() {
    let answers = vec![Ok(Clause::Key(vec![1])), Ok(Clause::RelativeTimelock(5))];
    assert_eq!(
        federate(1, answers),
        Ok(Clause::Threshold(1, vec![Clause::Key(vec![1]), Clause::RelativeTimelock(5)]))
    );
    assert_eq!(federate(0, Vec::new()), Ok(Clause::Threshold(0, Vec::new())));
}

#[test]
fn federate_reports_the_first_failure() {
    let answers = vec![
        Ok(Clause::Key(vec![1])),
        Err(EmulatorError::Backend("first".to_string())),
        Ok(Clause::Key(vec![2])),
        Err(EmulatorError::Backend("second".to_string())),
    ];
    assert_eq!(federate(3, answers), Err(own_error("first")));
}

#[test]
fn federation_of_one_child_behaves_as_the_child() {
    let (emulators, _) = children(&[5]);
    let (alone, _) = children(&[5]);
    let federation = FederatedEmulatorConnection::new(emulators, 1);
    assert_eq!(federation.sign(unsigned()), alone[0].sign(unsigned()));
    let (emulators, _) = children(&[0]);
    let (alone, _) = children(&[0]);
    let federation = FederatedEmulatorConnection::new(emulators, 1);
    assert_eq!(federation.sign(unsigned()), alone[0].sign(unsigned()));
    assert_eq!(federation.sign(unsigned()), Err(own_error("child 0")));
    assert_eq!(federation.get_signer_for([1; 32]), alone[0].get_signer_for([1; 32]));
}

#[test]
fn an_error_that_names_a_child_is_handed_on_as_it_came() {
    let named = || EmulatorError::ChildFailure(3, Box::new(own_error("deep")));
    let answers = vec![Ok(Clause::Key(vec![1])), Err(named())];
    assert_eq!(federate(1, answers), Err(named()));
}
