use bitcoin::blockdata::script::Script;
use bitcoin::consensus::encode::serialize;
use bitcoin::hashes::sha256;
use sapio::contract::{CompilationError, Compiled};
use sapio::template::output::Output;
use sapio::template::{Builder, Template};
use sapio::transaction::{OutPoint, Transaction, TxIn, TxOut};

fn script_a() -> Vec<u8> {
    vec![0x51]
}

fn script_b() -> Vec<u8> {
    vec![0x52, 0x53]
}

fn pay(amount: u64, script: Vec<u8>) -> Output {
    Output { amount, contract: Compiled::from_address(script), label: None }
}

fn five_and_three() -> Builder {
    Builder::new().add_output(pay(5000, script_a())).add_output(pay(3000, script_b()))
}

fn frozen(b: Builder) -> Template {
    match b.freeze() {
        Ok(t) => t,
        Err(e) => panic!("freeze failed: {:?}", e),
    }
}

fn placeholder(sequence: u32) -> TxIn {
    TxIn {
        previous_output: OutPoint { txid: [0; 32], vout: u32::MAX },
        script_sig: Vec::new(),
        sequence,
        witness: Vec::new(),
    }
}

/// The commitment hash as the `bitcoin` crate's own encoders and hash give it.
fn reference_hash(tx: &Transaction, input_index: u32) -> [u8; 32] {
    let mut bytes = Vec::new();
    bytes.extend(serialize(&tx.version));
    bytes.extend(serialize(&tx.lock_time));
    bytes.extend(serialize(&(tx.input.len() as u32)));
    for input in tx.input.iter() {
        bytes.extend(serialize(&input.sequence));
    }
    bytes.extend(serialize(&(tx.output.len() as u32)));
    for output in tx.output.iter() {
        let out = bitcoin::TxOut {
            value: output.value,
            script_pubkey: Script::from(output.script_pubkey.clone()),
        };
        bytes.extend(serialize(&out));
    }
    bytes.extend(serialize(&input_index));
    let digest = <sha256::Hash as bitcoin::hashes::Hash>::hash(&bytes);
    <sha256::Hash as bitcoin::hashes::Hash>::into_inner(digest)
}

#[test]
fn new_builder_has_one_input_and_no_output() {
    let b = Builder::new();
    assert_eq!(b.amount(), 0);
    let tx = b.get_tx();
    assert_eq!(
        tx,
        Transaction { version: 2, lock_time: 0, input: vec![placeholder(0)], output: Vec::new() }
    );
}

#[test]
fn template_new_is_a_fresh_builder() {
    assert_eq!(Template::new().get_tx(), Builder::new().get_tx());
    assert_eq!(Template::new().amount(), 0);
}

#[test]
fn outputs_keep_their_order() {
    let tx = five_and_three().get_tx();
    assert_eq!(
        tx.output,
        vec![
            TxOut { value: 5000, script_pubkey: script_a() },
            TxOut { value: 3000, script_pubkey: script_b() },
        ]
    );
    assert_eq!(tx.input, vec![placeholder(0)]);
}

#[test]
fn sequences_are_added_at_the_end() {
    let tx = Builder::new().add_sequence(7).add_sequence(9).get_tx();
    assert_eq!(tx.input, vec![placeholder(0), placeholder(7), placeholder(9)]);
}

#[test]
fn set_sequence_replaces_one_entry() {
    let b = Builder::new().add_sequence(7).set_sequence(1, 42);
    let tx = match b {
        Ok(b) => b.get_tx(),
        Err(e) => panic!("unexpected {:?}", e),
    };
    assert_eq!(tx.input, vec![placeholder(0), placeholder(42)]);
    let first = match Builder::new().set_sequence(0, 0xFFFF_FFFF) {
        Ok(b) => b.get_tx(),
        Err(e) => panic!("unexpected {:?}", e),
    };
    assert_eq!(first.input, vec![placeholder(0xFFFF_FFFF)]);
}

#[test]
fn set_sequence_out_of_range_is_an_index_error() {
    assert!(matches!(Builder::new().set_sequence(1, 5), Err(CompilationError::IndexError)));
    assert!(matches!(
        Builder::new().add_sequence(3).set_sequence(2, 5),
        Err(CompilationError::IndexError)
    ));
    assert!(matches!(
        Builder::new().set_sequence(usize::MAX, 5),
        Err(CompilationError::IndexError)
    ));
}

#[test]
fn lock_time_and_label_are_replaced() {
    let b = Builder::new().set_lock_time(500).set_lock_time(600).set_label("first".to_string());
    let b = b.set_label("vault".to_string());
    assert_eq!(b.get_tx().lock_time, 600);
    let t = frozen(b);
    assert_eq!(t.label, "vault");
    assert_eq!(t.tx.lock_time, 600);
    assert_eq!(frozen(Builder::new()).label, "");
}

#[test]
fn running_amount_adds_up() {
    let b = Builder::new().add_amount(10).and_then(|b| b.add_amount(32));
    match b {
        Ok(b) => assert_eq!(b.amount(), 42),
        Err(e) => panic!("unexpected {:?}", e),
    }
    match Builder::new().add_amount(u64::MAX) {
        Ok(b) => assert_eq!(b.amount(), u64::MAX),
        Err(e) => panic!("unexpected {:?}", e),
    }
}

#[test]
fn running_amount_overflow_is_an_error() {
    let b = Builder::new().add_amount(u64::MAX).and_then(|b| b.add_amount(1));
    assert!(matches!(b, Err(CompilationError::AmountOverflow)));
}

#[test]
fn running_amount_and_outputs_are_independent() {
    let b = match five_and_three().add_amount(1) {
        Ok(b) => b,
        Err(e) => panic!("unexpected {:?}", e),
    };
    assert_eq!(b.amount(), 1);
    let t = frozen(b);
    assert_eq!(t.max, 8000);
    let only_running = match Builder::new().add_amount(8000) {
        Ok(b) => b,
        Err(e) => panic!("unexpected {:?}", e),
    };
    assert_eq!(only_running.amount(), 8000);
    assert_eq!(frozen(only_running).max, 0);
    assert_eq!(five_and_three().amount(), 0);
}

#[test]
fn freeze_keeps_outputs_and_sums_them() {
    let t = frozen(five_and_three());
    assert_eq!(t.outputs, vec![pay(5000, script_a()), pay(3000, script_b())]);
    assert_eq!(t.outputs.iter().map(|o| o.amount).sum::<u64>(), 8000);
    assert_eq!(t.max, 8000);
    assert_eq!(t.tx, five_and_three().get_tx());
    assert_eq!(t.total_amount(), 0);
}

#[test]
fn two_outputs_end_to_end() {
    let build = || {
        Builder::new()
            .add_output(pay(5000, script_a()))
            .add_output(pay(3000, script_b()))
    };
    let t = frozen(build());
    assert_eq!(t.outputs.len(), 2);
    assert_eq!((t.outputs[0].amount, t.outputs[1].amount), (5000, 3000));
    assert_eq!(t.outputs[0].amount + t.outputs[1].amount, 8000);
    assert_eq!(t.max, 8000);
    assert_eq!(t.hash(), frozen(build()).hash());
    assert_ne!(t.hash(), frozen(build().add_sequence(1)).hash());
}

#[test]
fn freeze_twice_gives_the_same_hash() {
    let first = frozen(five_and_three());
    let second = frozen(five_and_three());
    assert_eq!(first.hash(), second.hash());
    assert_eq!(first.ctv, first.hash());
    assert_eq!(first, second);
}

#[test]
fn labels_and_running_amount_do_not_change_the_hash() {
    let plain = frozen(five_and_three());
    let labelled = five_and_three().set_label("x".to_string()).add_amount(77);
    let labelled = match labelled {
        Ok(b) => frozen(b),
        Err(e) => panic!("unexpected {:?}", e),
    };
    assert_eq!(plain.hash(), labelled.hash());
    let with_output_label = Builder::new()
        .add_output(Output {
            amount: 5000,
            contract: Compiled::from_address(script_a()),
            label: Some("alice".to_string()),
        })
        .add_output(pay(3000, script_b()));
    assert_eq!(plain.hash(), frozen(with_output_label).hash());
}

#[test]
fn extra_sequence_changes_the_hash() {
    let one_input = frozen(five_and_three());
    let two_inputs = frozen(five_and_three().add_sequence(1));
    assert_ne!(one_input.hash(), two_inputs.hash());
    assert_eq!(
        two_inputs.hash(),
        [
            222, 170, 58, 108, 1, 100, 165, 177, 181, 211, 16, 227, 32, 89, 134, 85, 229, 102, 79,
            144, 192, 10, 6, 30, 212, 31, 165, 239, 168, 32, 18, 109
        ]
    );
}

#[test]
fn one_satoshi_changes_the_hash() {
    let base = frozen(five_and_three());
    let more = frozen(
        Builder::new().add_output(pay(5001, script_a())).add_output(pay(3000, script_b())),
    );
    assert_ne!(base.hash(), more.hash());
    assert_eq!(
        more.hash(),
        [
            241, 93, 193, 168, 6, 56, 200, 9, 81, 37, 29, 49, 91, 40, 175, 52, 66, 195, 123, 98,
            141, 226, 20, 67, 69, 229, 116, 176, 22, 244, 228, 190
        ]
    );
}

#[test]
fn reversed_outputs_change_the_hash() {
    let forward = frozen(five_and_three());
    let backward = frozen(
        Builder::new().add_output(pay(3000, script_b())).add_output(pay(5000, script_a())),
    );
    assert_ne!(forward.hash(), backward.hash());
    assert_eq!(
        backward.hash(),
        [
            93, 155, 67, 200, 54, 2, 227, 71, 9, 156, 236, 137, 121, 243, 193, 242, 146, 205, 117,
            248, 235, 204, 122, 111, 138, 97, 238, 178, 119, 97, 6, 30
        ]
    );
}

#[test]
fn two_equal_outputs_reversed_give_the_same_hash() {
    let forward = frozen(Builder::new().add_output(pay(1, script_a())).add_output(pay(1, script_a())));
    let backward = frozen(Builder::new().add_output(pay(1, script_a())).add_output(pay(1, script_a())));
    assert_eq!(forward.hash(), backward.hash());
}

#[test]
fn lock_time_and_script_change_the_hash() {
    let base = frozen(five_and_three());
    assert_ne!(base.hash(), frozen(five_and_three().set_lock_time(1)).hash());
    let other_script = frozen(
        Builder::new().add_output(pay(5000, vec![0x54])).add_output(pay(3000, script_b())),
    );
    assert_ne!(base.hash(), other_script.hash());
}

#[test]
fn commitment_bytes_are_exact() {
    let tx = five_and_three().get_tx();
    assert_eq!(
        tx.commitment_bytes(0),
        vec![
            2, 0, 0, 0, 0, 0, 0, 0, 1, 0, 0, 0, 0, 0, 0, 0, 2, 0, 0, 0, 136, 19, 0, 0, 0, 0, 0, 0,
            1, 81, 184, 11, 0, 0, 0, 0, 0, 0, 2, 82, 83, 0, 0, 0, 0
        ]
    );
    let empty = Builder::new().get_tx();
    assert_eq!(
        empty.commitment_bytes(0),
        vec![2, 0, 0, 0, 0, 0, 0, 0, 1, 0, 0, 0, 0, 0, 0, 0, 0, 0, 0, 0, 0, 0, 0, 0]
    );
    assert_eq!(
        empty.commitment_bytes(0x0102_0304)[20..].to_vec(),
        vec![4, 3, 2, 1]
    );
}

#[test]
fn commitment_hash_is_sha256_of_the_bytes() {
    assert_eq!(
        frozen(Builder::new()).hash(),
        [
            179, 219, 102, 80, 228, 89, 140, 165, 25, 66, 248, 62, 43, 95, 90, 220, 29, 101, 184,
            6, 251, 18, 36, 97, 157, 124, 56, 93, 54, 66, 222, 28
        ]
    );
    assert_eq!(
        frozen(five_and_three()).hash(),
        [
            216, 23, 229, 51, 151, 53, 211, 30, 43, 34, 55, 220, 17, 16, 248, 114, 255, 144, 105,
            230, 175, 223, 187, 252, 60, 118, 66, 121, 26, 29, 59, 23
        ]
    );
}

#[test]
fn commitment_hash_agrees_with_the_bitcoin_crate() {
    let long_script = vec![0xAB; 300];
    let b = Builder::new()
        .add_sequence(0xFFFF_FFFE)
        .set_lock_time(700_000)
        .add_output(pay(1, long_script))
        .add_output(pay(u64::MAX - 1, Vec::new()))
        .add_output(pay(0, vec![0; 0xFD]));
    let tx = b.get_tx();
    assert_eq!(tx.get_ctv_hash(0), reference_hash(&tx, 0));
    assert_eq!(tx.get_ctv_hash(1), reference_hash(&tx, 1));
    assert_ne!(tx.get_ctv_hash(0), tx.get_ctv_hash(1));
    assert_eq!(frozen(b).hash(), reference_hash(&tx, 0));
}

#[test]
fn negative_version_is_committed_in_twos_complement() {
    let tx = Transaction { version: -2, lock_time: 0, input: Vec::new(), output: Vec::new() };
    assert_eq!(
        tx.commitment_bytes(0),
        vec![254, 255, 255, 255, 0, 0, 0, 0, 0, 0, 0, 0, 0, 0, 0, 0, 0, 0, 0, 0]
    );
    assert_eq!(tx.get_ctv_hash(0), reference_hash(&tx, 0));
}

#[test]
fn total_amount_of_a_transaction_is_the_sum() {
    assert_eq!(five_and_three().get_tx().total_amount(), Some(8000));
    assert_eq!(Builder::new().get_tx().total_amount(), Some(0));
    let full = Builder::new().add_output(pay(u64::MAX, script_a())).add_output(pay(0, script_b()));
    assert_eq!(full.get_tx().total_amount(), Some(u64::MAX));
}

#[test]
fn freeze_overflow_is_an_error() {
    let b = Builder::new().add_output(pay(u64::MAX, script_a())).add_output(pay(1, script_b()));
    assert_eq!(b.get_tx().total_amount(), None);
    assert!(matches!(b.freeze(), Err(CompilationError::AmountOverflow)));
}

#[test]
fn builder_converts_into_a_result() {
    let converted: Result<Template, CompilationError> = five_and_three().into();
    assert_eq!(converted, five_and_three().freeze());
    let over = Builder::new().add_output(pay(u64::MAX, script_a())).add_output(pay(1, script_b()));
    let converted: Result<Template, CompilationError> = over.into();
    assert_eq!(converted, Err(CompilationError::AmountOverflow));
}

#[test]
fn freeze_at_the_limit_succeeds() {
    let b = Builder::new().add_output(pay(u64::MAX - 1, script_a())).add_output(pay(1, script_b()));
    assert_eq!(frozen(b).max, u64::MAX);
}

#[test]
fn null_outpoint_is_the_placeholder() {
    assert_eq!(OutPoint::null(), OutPoint { txid: [0; 32], vout: u32::MAX });
    assert!(OutPoint::null().check_null());
    assert!(!OutPoint { txid: [0; 32], vout: 0 }.check_null());
    let mut txid = [0u8; 32];
    txid[31] = 1;
    assert!(!OutPoint { txid, vout: u32::MAX }.check_null());
}

#[test]
fn skeleton_has_only_placeholder_inputs() {
    let mut tx = five_and_three().add_sequence(3).get_tx();
    assert!(tx.check_skeleton());
    tx.input[1].script_sig = vec![1];
    assert!(!tx.check_skeleton());
    tx.input[1].script_sig = Vec::new();
    tx.input[0].witness = vec![Vec::new()];
    assert!(!tx.check_skeleton());
    tx.input[0].witness = Vec::new();
    tx.input[1].previous_output.vout = 0;
    assert!(!tx.check_skeleton());
    let none = Transaction { version: 2, lock_time: 0, input: Vec::new(), output: Vec::new() };
    assert!(none.check_skeleton());
}

#[test]
fn frozen_template_is_well_formed() {
    assert!(frozen(five_and_three()).is_well_formed());
    assert!(frozen(Builder::new()).is_well_formed());
    assert!(frozen(five_and_three().add_sequence(9).set_lock_time(4)).is_well_formed());
}

#[test]
fn tampered_template_is_not_well_formed() {
    let mut t = frozen(five_and_three());
    t.max = 7999;
    assert!(!t.is_well_formed());
    let mut t = frozen(five_and_three());
    t.ctv[0] ^= 1;
    assert!(!t.is_well_formed());
    let mut t = frozen(five_and_three());
    t.outputs[0].amount = 5001;
    assert!(!t.is_well_formed());
    let mut t = frozen(five_and_three());
    t.outputs[1].contract.address = script_a();
    assert!(!t.is_well_formed());
    let mut t = frozen(five_and_three());
    t.outputs.pop();
    assert!(!t.is_well_formed());
    let mut t = frozen(five_and_three());
    t.tx.lock_time = 1;
    assert!(!t.is_well_formed());
    let mut t = frozen(five_and_three());
    t.tx.input[0].script_sig = vec![0];
    assert!(!t.is_well_formed());
    let mut t = frozen(five_and_three());
    t.tx.input.clear();
    assert!(!t.is_well_formed());
    let mut t = frozen(five_and_three());
    t.label = "other".to_string();
    assert!(t.is_well_formed());
}
