use student_intro::addr::derive_record_address;
use student_intro::codec::deserialize_record;
use student_intro::codec::serialize_record;
use student_intro::error::StudentIntroError;
use student_intro::processor::add_student_intro;
use student_intro::processor::add_student_intro_at;
use student_intro::processor::process_instruction;
use student_intro::processor::update_student_intro;
use student_intro::processor::CreateMode;
use student_intro::processor::Identity;
use student_intro::processor::StorageAccount;
use student_intro::rent::min_balance_for;
use student_intro::state::StudentIntroAccountState;

const PROGRAM: [u8; 32] = [7u8; 32];
const OWNER_A: [u8; 32] = [1u8; 32];
const OWNER_B: [u8; 32] = [2u8; 32];

fn signer(key: [u8; 32]) -> Identity {
    Identity { key, is_signer: true }
}

fn fresh_storage_for(owner: &[u8; 32], name: &str) -> StorageAccount {
    let (address, _bump) = derive_record_address(owner, name, &PROGRAM).unwrap();
    StorageAccount { address, owner: [0u8; 32], lamports: 0, data: Vec::new() }
}

fn created_storage(owner: [u8; 32], name: &str, msg: &str) -> StorageAccount {
    let mut storage = fresh_storage_for(&owner, name);
    let r = add_student_intro(
        &PROGRAM,
        &signer(owner),
        &mut storage,
        min_balance_for(1000),
        CreateMode::RejectExisting,
        name.to_string(),
        msg.to_string(),
    );
    assert_eq!(r, Ok(()));
    storage
}

fn stored_record(storage: &StorageAccount) -> StudentIntroAccountState {
    deserialize_record(&storage.data).unwrap()
}

#[test]
fn create_writes_record_and_funds_storage() {
    let storage = created_storage(OWNER_A, "alice", "hello");
    assert_eq!(storage.owner, PROGRAM);
    assert_eq!(storage.lamports, min_balance_for(1000));
    assert_eq!(storage.data.len(), 1000);
    let rec = stored_record(&storage);
    assert!(rec.is_initialized);
    assert_eq!(rec.name, "alice");
    assert_eq!(rec.msg, "hello");
}

#[test]
fn create_requires_signature() {
    let mut storage = fresh_storage_for(&OWNER_A, "alice");
    let unsigned = Identity { key: OWNER_A, is_signer: false };
    let r = add_student_intro(
        &PROGRAM,
        &unsigned,
        &mut storage,
        min_balance_for(1000),
        CreateMode::RejectExisting,
        "alice".to_string(),
        "hello".to_string(),
    );
    assert_eq!(r, Err(StudentIntroError::MissingSignature));
    assert!(storage.data.is_empty());
}

#[test]
fn create_rejects_wrong_address() {
    // Storage supplied at the address derived for a different name.
    let mut storage = fresh_storage_for(&OWNER_A, "bob");
    let r = add_student_intro(
        &PROGRAM,
        &signer(OWNER_A),
        &mut storage,
        min_balance_for(1000),
        CreateMode::RejectExisting,
        "alice".to_string(),
        "hello".to_string(),
    );
    assert_eq!(r, Err(StudentIntroError::InvalidAddress));
    assert!(storage.data.is_empty());
}

#[test]
fn create_capacity_boundary() {
    // 1 + 4 + 5 + 4 + 986 == 1000: exactly the capacity succeeds.
    let mut storage = fresh_storage_for(&OWNER_A, "abcde");
    let r = add_student_intro(
        &PROGRAM,
        &signer(OWNER_A),
        &mut storage,
        min_balance_for(1000),
        CreateMode::RejectExisting,
        "abcde".to_string(),
        "x".repeat(986),
    );
    assert_eq!(r, Ok(()));
    assert_eq!(stored_record(&storage).msg.len(), 986);

    // One byte more fails with InvalidDataLength and allocates nothing.
    let mut storage = fresh_storage_for(&OWNER_A, "abcde");
    let r = add_student_intro(
        &PROGRAM,
        &signer(OWNER_A),
        &mut storage,
        min_balance_for(1000),
        CreateMode::RejectExisting,
        "abcde".to_string(),
        "x".repeat(987),
    );
    assert_eq!(r, Err(StudentIntroError::InvalidDataLength));
    assert!(storage.data.is_empty());
    assert_eq!(storage.lamports, 0);
}

#[test]
fn create_oversized_name_at_known_address() {
    // With the expected address supplied directly, a name beyond the
    // capacity fails the size check and allocates nothing.
    let address = [9u8; 32];
    let mut storage = StorageAccount { address, owner: [0u8; 32], lamports: 0, data: Vec::new() };
    let r = add_student_intro_at(
        &PROGRAM,
        &address,
        &signer(OWNER_A),
        &mut storage,
        min_balance_for(1000),
        CreateMode::RejectExisting,
        "n".repeat(992),
        String::new(),
    );
    assert_eq!(r, Err(StudentIntroError::InvalidDataLength));
    assert!(storage.data.is_empty());
    assert_eq!(storage.lamports, 0);
}

#[test]
fn create_oversized_name_fails_derivation() {
    // Through the full create path the host's derivation primitive already
    // refuses a name seed beyond its 32-byte limit.
    let mut storage = StorageAccount {
        address: [9u8; 32],
        owner: [0u8; 32],
        lamports: 0,
        data: Vec::new(),
    };
    let r = add_student_intro(
        &PROGRAM,
        &signer(OWNER_A),
        &mut storage,
        min_balance_for(1000),
        CreateMode::RejectExisting,
        "n".repeat(992),
        String::new(),
    );
    assert_eq!(r, Err(StudentIntroError::DerivationFailed));
    assert!(storage.data.is_empty());
}

#[test]
fn create_twice_strict_fails_without_overwrite() {
    let mut storage = created_storage(OWNER_A, "alice", "hello");
    let before = storage.data.clone();
    let r = add_student_intro(
        &PROGRAM,
        &signer(OWNER_A),
        &mut storage,
        min_balance_for(1000),
        CreateMode::RejectExisting,
        "alice".to_string(),
        "other".to_string(),
    );
    assert_eq!(r, Err(StudentIntroError::AlreadyInUse));
    assert_eq!(storage.data, before);
    assert_eq!(stored_record(&storage).msg, "hello");
}

#[test]
fn create_twice_lenient_resets_record() {
    let mut storage = created_storage(OWNER_A, "alice", "hello");
    let r = add_student_intro(
        &PROGRAM,
        &signer(OWNER_A),
        &mut storage,
        min_balance_for(1000),
        CreateMode::AllowExisting,
        "alice".to_string(),
        "fresh start".to_string(),
    );
    assert_eq!(r, Ok(()));
    assert_eq!(stored_record(&storage).msg, "fresh start");
}

#[test]
fn update_replaces_message() {
    let mut storage = created_storage(OWNER_A, "alice", "hello");
    let r = update_student_intro(
        &PROGRAM,
        &signer(OWNER_A),
        &mut storage,
        "alice".to_string(),
        "hello world".to_string(),
    );
    assert_eq!(r, Ok(()));
    let rec = stored_record(&storage);
    assert!(rec.is_initialized);
    assert_eq!(rec.name, "alice");
    assert_eq!(rec.msg, "hello world");
}

#[test]
fn update_requires_signature_first() {
    // Even with everything else wrong too, the missing signature is what is
    // reported: it is checked before any other gate.
    let mut storage = created_storage(OWNER_A, "alice", "hello");
    storage.owner = [3u8; 32];
    let before = storage.data.clone();
    let unsigned = Identity { key: OWNER_B, is_signer: false };
    let r = update_student_intro(
        &PROGRAM,
        &unsigned,
        &mut storage,
        "bob".to_string(),
        "x".to_string(),
    );
    assert_eq!(r, Err(StudentIntroError::MissingSignature));
    assert_eq!(storage.data, before);
}

#[test]
fn update_from_other_identity_fails_address_check() {
    let mut storage = created_storage(OWNER_A, "alice", "hello");
    let before = storage.data.clone();
    let r = update_student_intro(
        &PROGRAM,
        &signer(OWNER_B),
        &mut storage,
        "alice".to_string(),
        "hijacked".to_string(),
    );
    assert_eq!(r, Err(StudentIntroError::InvalidAddress));
    assert_eq!(storage.data, before);
}

#[test]
fn update_rejects_foreign_storage() {
    let mut storage = created_storage(OWNER_A, "alice", "hello");
    storage.owner = [3u8; 32];
    let r = update_student_intro(
        &PROGRAM,
        &signer(OWNER_A),
        &mut storage,
        "alice".to_string(),
        "x".to_string(),
    );
    assert_eq!(r, Err(StudentIntroError::IllegalOwner));
}

#[test]
fn update_rejects_changed_name() {
    let mut storage = created_storage(OWNER_A, "alice", "hello");
    let before = storage.data.clone();
    let r = update_student_intro(
        &PROGRAM,
        &signer(OWNER_A),
        &mut storage,
        "bob".to_string(),
        "x".to_string(),
    );
    assert_eq!(r, Err(StudentIntroError::InvalidStudentName));
    assert_eq!(storage.data, before);
    assert_eq!(stored_record(&storage).msg, "hello");
}

#[test]
fn update_rejects_uninitialized_record() {
    // Storage holding a record whose flag was never set.
    let (address, _bump) = derive_record_address(&OWNER_A, "alice", &PROGRAM).unwrap();
    let bare = StudentIntroAccountState {
        is_initialized: false,
        name: "alice".to_string(),
        msg: String::new(),
    };
    let mut data = serialize_record(&bare);
    data.resize(1000, 0u8);
    let mut storage = StorageAccount { address, owner: PROGRAM, lamports: 0, data };
    let r = update_student_intro(
        &PROGRAM,
        &signer(OWNER_A),
        &mut storage,
        "alice".to_string(),
        "x".to_string(),
    );
    assert_eq!(r, Err(StudentIntroError::UninitializedAccount));
}

#[test]
fn update_rejects_corrupt_storage() {
    let mut storage = created_storage(OWNER_A, "alice", "hello");
    storage.data[0] = 9;
    let r = update_student_intro(
        &PROGRAM,
        &signer(OWNER_A),
        &mut storage,
        "alice".to_string(),
        "x".to_string(),
    );
    assert_eq!(r, Err(StudentIntroError::CorruptRecord));
}

#[test]
fn update_capacity_boundary() {
    let mut storage = created_storage(OWNER_A, "abcde", "hello");
    let r = update_student_intro(
        &PROGRAM,
        &signer(OWNER_A),
        &mut storage,
        "abcde".to_string(),
        "x".repeat(986),
    );
    assert_eq!(r, Ok(()));
    let before = storage.data.clone();
    let r = update_student_intro(
        &PROGRAM,
        &signer(OWNER_A),
        &mut storage,
        "abcde".to_string(),
        "x".repeat(987),
    );
    assert_eq!(r, Err(StudentIntroError::InvalidDataLength));
    assert_eq!(storage.data, before);
}

fn instruction_bytes(tag: u8, name: &str, msg: &str) -> Vec<u8> {
    let mut bytes = vec![tag];
    bytes.extend_from_slice(&(name.len() as u32).to_le_bytes());
    bytes.extend_from_slice(name.as_bytes());
    bytes.extend_from_slice(&(msg.len() as u32).to_le_bytes());
    bytes.extend_from_slice(msg.as_bytes());
    bytes
}

#[test]
fn instruction_payload_matches_borsh_layout() {
    let ours = instruction_bytes(0, "alice", "hello");
    let mut theirs = vec![0u8];
    theirs
        .extend_from_slice(&borsh::to_vec(&("alice".to_string(), "hello".to_string())).unwrap());
    assert_eq!(ours, theirs);
}

#[test]
fn process_instruction_end_to_end() {
    let mut storage = fresh_storage_for(&OWNER_A, "alice");
    let create = instruction_bytes(0, "alice", "hello");
    let r = process_instruction(
        &PROGRAM,
        &signer(OWNER_A),
        &mut storage,
        min_balance_for(1000),
        CreateMode::RejectExisting,
        &create,
    );
    assert_eq!(r, Ok(()));
    assert_eq!(stored_record(&storage).msg, "hello");

    let update = instruction_bytes(1, "alice", "hello world");
    let r = process_instruction(
        &PROGRAM,
        &signer(OWNER_A),
        &mut storage,
        min_balance_for(1000),
        CreateMode::RejectExisting,
        &update,
    );
    assert_eq!(r, Ok(()));
    assert_eq!(stored_record(&storage).msg, "hello world");
}

#[test]
fn process_instruction_rejects_bad_requests() {
    let mut storage = fresh_storage_for(&OWNER_A, "alice");
    let min = min_balance_for(1000);
    let mode = CreateMode::RejectExisting;
    let unknown_tag = instruction_bytes(2, "alice", "hello");
    let r = process_instruction(&PROGRAM, &signer(OWNER_A), &mut storage, min, mode, &unknown_tag);
    assert_eq!(r, Err(StudentIntroError::InvalidInstruction));

    let mut trailing = instruction_bytes(0, "alice", "hello");
    trailing.push(0);
    let r = process_instruction(&PROGRAM, &signer(OWNER_A), &mut storage, min, mode, &trailing);
    assert_eq!(r, Err(StudentIntroError::InvalidInstruction));

    let r = process_instruction(&PROGRAM, &signer(OWNER_A), &mut storage, min, mode, &[]);
    assert_eq!(r, Err(StudentIntroError::InvalidInstruction));
    assert!(storage.data.is_empty());
}
