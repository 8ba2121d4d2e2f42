//! The instruction processor: validation and the storage-mutating effect of
//! the create and update operations, against an explicit host context.
//!
//! The host hands the processor the program's id, the requesting identity,
//! the storage account the request names, and the funding the minimum-balance
//! oracle asks for.  Each handler's contract states the result and the new
//! storage value as a function of those inputs.  The host's all-or-nothing
//! request semantics is assumed around the whole request: on an error the
//! handlers here leave the storage unchanged themselves.

use vstd::prelude::*;
use vstd::utf8::encode_utf8;

use crate::addr::derive_record_address;
use crate::addr::derived_address;
use crate::codec::deserialize_record;
use crate::codec::spec_decode_record;
use crate::codec::spec_encode_record;
use crate::codec::write_record;
use crate::error::StudentIntroError;
use crate::instruction::InstructionView;
use crate::instruction::StudentIntroInstruction;
use crate::instruction::spec_unpack;
use crate::state::MAX_RECORD_SIZE;
use crate::state::RecordView;
use crate::state::StudentIntroAccountState;

verus! {

/// A participating identity: its key and whether it supplied a valid
/// authorization proof for this request.
pub struct Identity {
    pub key: [u8; 32],
    pub is_signer: bool,
}

/// A storage account as the host presents it to the processor: its address,
/// the capability holder that owns it, its funding balance and its bytes.
/// Unallocated storage has no bytes.
pub struct StorageAccount {
    pub address: [u8; 32],
    pub owner: [u8; 32],
    pub lamports: u64,
    pub data: Vec<u8>,
}

/// The mathematical value of a storage account.
pub struct StorageView {
    pub address: Seq<u8>,
    pub owner: Seq<u8>,
    pub lamports: u64,
    pub data: Seq<u8>,
}

impl View for StorageAccount {
    type V = StorageView;

    open spec fn view(&self) -> StorageView {
        StorageView {
            address: self.address@,
            owner: self.owner@,
            lamports: self.lamports,
            data: self.data@,
        }
    }
}

/// Whether create may touch storage that already holds data.  Strict
/// creation refuses it; lenient creation resets a record in place when the
/// storage is this processor's own and of the fixed record size, and refuses
/// anything else.
#[derive(Clone, Copy, Debug, PartialEq, Eq, Structural)]
pub enum CreateMode {
    RejectExisting,
    AllowExisting,
}

/// The bytes an encoded record with these texts spans: flag, two length
/// prefixes, and the texts' UTF-8 bytes.
pub open spec fn spec_encoded_len(name: Seq<char>, msg: Seq<char>) -> int {
    1 + 4 + encode_utf8(name).len() as int + 4 + encode_utf8(msg).len() as int
}

/// Storage bytes after a record is written over the front, the rest staying
/// as it was.
pub open spec fn spec_write_to(data: Seq<u8>, r: RecordView) -> Seq<u8> {
    spec_encode_record(r) + data.skip(spec_encode_record(r).len() as int)
}

/// All-zero storage of the fixed record size, as the allocator hands it out.
pub open spec fn spec_fresh_data() -> Seq<u8> {
    Seq::new(MAX_RECORD_SIZE as nat, |i: int| 0u8)
}

/// What create does once the expected storage address is known: compare the
/// supplied address against it, check capacity, then either allocate fresh
/// storage of the fixed size funded with `min_balance` and write the record,
/// or, under lenient creation, rewrite this processor's own full-size
/// storage in place.
pub open spec fn spec_create_at(
    program_id: Seq<u8>,
    expected_address: Seq<u8>,
    signed: bool,
    st: StorageView,
    min_balance: u64,
    mode: CreateMode,
    name: Seq<char>,
    msg: Seq<char>,
) -> (Result<(), StudentIntroError>, StorageView) {
    let rec = RecordView { is_initialized: true, name, msg };
    if !signed {
        (Err(StudentIntroError::MissingSignature), st)
    } else if st.address != expected_address {
        (Err(StudentIntroError::InvalidAddress), st)
    } else if spec_encoded_len(name, msg) > MAX_RECORD_SIZE as int {
        (Err(StudentIntroError::InvalidDataLength), st)
    } else if st.data.len() == 0 {
        (
            Ok(()),
            StorageView {
                owner: program_id,
                lamports: min_balance,
                data: spec_write_to(spec_fresh_data(), rec),
                ..st
            },
        )
    } else if mode == CreateMode::RejectExisting {
        (Err(StudentIntroError::AlreadyInUse), st)
    } else if st.owner == program_id && st.data.len() == MAX_RECORD_SIZE as int {
        (Ok(()), StorageView { data: spec_write_to(st.data, rec), ..st })
    } else {
        (Err(StudentIntroError::AlreadyInUse), st)
    }
}

/// The whole create operation: require the signature, derive the expected
/// address from the requester's key and the name, then `spec_create_at`.
pub open spec fn spec_add_student_intro(
    program_id: Seq<u8>,
    initializer_key: Seq<u8>,
    signed: bool,
    st: StorageView,
    min_balance: u64,
    mode: CreateMode,
    name: Seq<char>,
    msg: Seq<char>,
) -> (Result<(), StudentIntroError>, StorageView) {
    if !signed {
        (Err(StudentIntroError::MissingSignature), st)
    } else {
        match derived_address(initializer_key, encode_utf8(name), program_id) {
            None => (Err(StudentIntroError::DerivationFailed), st),
            Some((pda, bump)) => spec_create_at(
                program_id,
                pda,
                signed,
                st,
                min_balance,
                mode,
                name,
                msg,
            ),
        }
    }
}

/// The whole update operation: require the signature and this processor's
/// ownership of the storage, decode the stored record, re-derive the address
/// from the requester's key and the *stored* name, and only then compare
/// addresses, require initialization, the unchanged name and the capacity,
/// before the message is replaced in place.
pub open spec fn spec_update_student_intro(
    program_id: Seq<u8>,
    initializer_key: Seq<u8>,
    signed: bool,
    st: StorageView,
    name: Seq<char>,
    msg: Seq<char>,
) -> (Result<(), StudentIntroError>, StorageView) {
    if !signed {
        (Err(StudentIntroError::MissingSignature), st)
    } else if st.owner != program_id {
        (Err(StudentIntroError::IllegalOwner), st)
    } else {
        match spec_decode_record(st.data) {
            None => (Err(StudentIntroError::CorruptRecord), st),
            Some(rec) => match derived_address(initializer_key, encode_utf8(rec.name), program_id) {
                None => (Err(StudentIntroError::DerivationFailed), st),
                Some((pda, bump)) => {
                    if pda != st.address {
                        (Err(StudentIntroError::InvalidAddress), st)
                    } else if !rec.is_initialized {
                        (Err(StudentIntroError::UninitializedAccount), st)
                    } else if rec.name != name {
                        (Err(StudentIntroError::InvalidStudentName), st)
                    } else if spec_encoded_len(rec.name, msg) > MAX_RECORD_SIZE as int
                        || spec_encoded_len(rec.name, msg) > st.data.len() {
                        (Err(StudentIntroError::InvalidDataLength), st)
                    } else {
                        (
                            Ok(()),
                            StorageView {
                                data: spec_write_to(
                                    st.data,
                                    RecordView { is_initialized: true, name: rec.name, msg },
                                ),
                                ..st
                            },
                        )
                    }
                },
            },
        }
    }
}

/// A whole request: decode the operation and dispatch.
pub open spec fn spec_process_instruction(
    program_id: Seq<u8>,
    initializer_key: Seq<u8>,
    signed: bool,
    st: StorageView,
    min_balance: u64,
    mode: CreateMode,
    instruction_data: Seq<u8>,
) -> (Result<(), StudentIntroError>, StorageView) {
    match spec_unpack(instruction_data) {
        None => (Err(StudentIntroError::InvalidInstruction), st),
        Some(InstructionView::Add { name, msg }) => spec_add_student_intro(
            program_id,
            initializer_key,
            signed,
            st,
            min_balance,
            mode,
            name,
            msg,
        ),
        Some(InstructionView::Update { name, msg }) => spec_update_student_intro(
            program_id,
            initializer_key,
            signed,
            st,
            name,
            msg,
        ),
    }
}

/// Creating at storage that already holds data never silently overwrites:
/// under strict creation the request fails and the storage stays exactly as
/// it was, whatever the request holds.
pub proof fn lemma_create_never_overwrites(
    program_id: Seq<u8>,
    expected_address: Seq<u8>,
    signed: bool,
    st: StorageView,
    min_balance: u64,
    name: Seq<char>,
    msg: Seq<char>,
)
    requires
        st.data.len() != 0,
    ensures
        ({
            let (res, post) = spec_create_at(
                program_id,
                expected_address,
                signed,
                st,
                min_balance,
                CreateMode::RejectExisting,
                name,
                msg,
            );
            res is Err && post == st
        }),
{
}

/// The capacity boundary of create: with the signature supplied, the right
/// address and fresh storage, an encoding of exactly the fixed size
/// succeeds, and one of a single byte more fails with `InvalidDataLength`
/// and leaves the storage unchanged.
pub proof fn lemma_create_capacity_boundary(
    program_id: Seq<u8>,
    st: StorageView,
    min_balance: u64,
    mode: CreateMode,
    name: Seq<char>,
    msg: Seq<char>,
)
    requires
        st.data.len() == 0,
    ensures
        ({
            let (res, post) = spec_create_at(
                program_id,
                st.address,
                true,
                st,
                min_balance,
                mode,
                name,
                msg,
            );
            &&& spec_encoded_len(name, msg) == MAX_RECORD_SIZE as int ==> res is Ok
            &&& spec_encoded_len(name, msg) == MAX_RECORD_SIZE as int + 1 ==> res == Err::<
                (),
                StudentIntroError,
            >(StudentIntroError::InvalidDataLength) && post == st
        }),
{
}

/// A successful create persists exactly the created record: decoding the
/// new storage bytes gives the flag set, the chosen name and the chosen
/// message.
pub proof fn lemma_create_persists_record(
    program_id: Seq<u8>,
    expected_address: Seq<u8>,
    signed: bool,
    st: StorageView,
    min_balance: u64,
    mode: CreateMode,
    name: Seq<char>,
    msg: Seq<char>,
)
    ensures
        ({
            let (res, post) = spec_create_at(
                program_id,
                expected_address,
                signed,
                st,
                min_balance,
                mode,
                name,
                msg,
            );
            res is Ok ==> spec_decode_record(post.data) == Some(
                RecordView { is_initialized: true, name, msg },
            )
        }),
{
    let (res, post) = spec_create_at(
        program_id,
        expected_address,
        signed,
        st,
        min_balance,
        mode,
        name,
        msg,
    );
    if res is Ok {
        let rec = RecordView { is_initialized: true, name, msg };
        crate::codec::lemma_encoded_len(rec);
        let n = spec_encode_record(rec).len() as int;
        if st.data.len() == 0 {
            crate::codec::lemma_decode_of_encoding(rec, spec_fresh_data().skip(n));
        } else {
            crate::codec::lemma_decode_of_encoding(rec, st.data.skip(n));
        }
    }
}

/// A successful update persists exactly the stored name with the new
/// message, the flag still set.
pub proof fn lemma_update_persists_record(
    program_id: Seq<u8>,
    initializer_key: Seq<u8>,
    st: StorageView,
    rec: RecordView,
    name: Seq<char>,
    msg: Seq<char>,
)
    requires
        spec_decode_record(st.data) == Some(rec),
    ensures
        ({
            let (res, post) = spec_update_student_intro(
                program_id,
                initializer_key,
                true,
                st,
                name,
                msg,
            );
            res is Ok ==> spec_decode_record(post.data) == Some(
                RecordView { is_initialized: true, name: rec.name, msg },
            )
        }),
{
    let (res, post) = spec_update_student_intro(program_id, initializer_key, true, st, name, msg);
    if res is Ok {
        let new_rec = RecordView { is_initialized: true, name: rec.name, msg };
        crate::codec::lemma_encoded_len(new_rec);
        let n = spec_encode_record(new_rec).len() as int;
        crate::codec::lemma_decode_of_encoding(new_rec, st.data.skip(n));
    }
}

/// An update without the requester's signature fails with
/// `MissingSignature` before any other check, and changes nothing.
pub proof fn lemma_update_requires_signature(
    program_id: Seq<u8>,
    initializer_key: Seq<u8>,
    st: StorageView,
    name: Seq<char>,
    msg: Seq<char>,
)
    ensures
        spec_update_student_intro(program_id, initializer_key, false, st, name, msg) == (
            Err::<(), StudentIntroError>(StudentIntroError::MissingSignature),
            st,
        ),
{
}

/// An update from an identity whose derived address differs from the
/// storage address fails with `InvalidAddress` and changes nothing: only
/// the identity the record's address was derived from can pass this gate.
pub proof fn lemma_update_wrong_identity(
    program_id: Seq<u8>,
    initializer_key: Seq<u8>,
    st: StorageView,
    rec: RecordView,
    pda: Seq<u8>,
    bump: u8,
    name: Seq<char>,
    msg: Seq<char>,
)
    requires
        st.owner == program_id,
        spec_decode_record(st.data) == Some(rec),
        derived_address(initializer_key, encode_utf8(rec.name), program_id) == Some((pda, bump)),
        pda != st.address,
    ensures
        spec_update_student_intro(program_id, initializer_key, true, st, name, msg) == (
            Err::<(), StudentIntroError>(StudentIntroError::InvalidAddress),
            st,
        ),
{
}

/// The name is immutable: an update whose name differs from the stored one
/// fails with `InvalidStudentName`, and the stored record — its message
/// included — stays exactly as it was.
pub proof fn lemma_update_name_immutable(
    program_id: Seq<u8>,
    initializer_key: Seq<u8>,
    st: StorageView,
    rec: RecordView,
    pda: Seq<u8>,
    bump: u8,
    name: Seq<char>,
    msg: Seq<char>,
)
    requires
        st.owner == program_id,
        spec_decode_record(st.data) == Some(rec),
        derived_address(initializer_key, encode_utf8(rec.name), program_id) == Some((pda, bump)),
        pda == st.address,
        rec.is_initialized,
        name != rec.name,
    ensures
        spec_update_student_intro(program_id, initializer_key, true, st, name, msg) == (
            Err::<(), StudentIntroError>(StudentIntroError::InvalidStudentName),
            st,
        ),
{
}

/// Byte-for-byte equality of two 32-byte keys.
fn bytes32_eq(a: &[u8; 32], b: &[u8; 32]) -> (r: bool)
    ensures
        r == (a@ == b@),
{
    let mut i: usize = 0;
    while i < 32
        invariant
            i <= 32,
            forall|k: int| 0 <= k < i ==> a@[k] == b@[k],
        decreases 32 - i,
    {
        if a[i] != b[i] {
            return false;
        }
        i = i + 1;
    }
    proof {
        assert(a@ =~= b@);
    }
    true
}

/// Fresh all-zero storage bytes of the fixed record size.
fn zeroed_record_data() -> (v: Vec<u8>)
    ensures
        v@ == spec_fresh_data(),
{
    let mut v: Vec<u8> = Vec::new();
    let mut i: usize = 0;
    while i < MAX_RECORD_SIZE
        invariant
            i <= MAX_RECORD_SIZE,
            v@ =~= spec_fresh_data().take(i as int),
        decreases MAX_RECORD_SIZE - i,
    {
        v.push(0u8);
        i = i + 1;
    }
    proof {
        assert(v@ =~= spec_fresh_data());
    }
    v
}

/// Whether an encoded record with these byte lengths would overflow the
/// fixed capacity; mirrors `spec_encoded_len` without any overflowing
/// arithmetic.
fn encoding_exceeds_capacity(name_len: usize, msg_len: usize) -> (r: bool)
    ensures
        r == (1 + 4 + name_len + 4 + msg_len > MAX_RECORD_SIZE as int),
{
    name_len > MAX_RECORD_SIZE - 9 || msg_len > MAX_RECORD_SIZE - 9 - name_len
}

/// Create, once the expected storage address has been derived.  Validates
/// the supplied address and the capacity, then allocates (or, under lenient
/// creation, reuses) the storage and writes the record.
pub fn add_student_intro_at(
    program_id: &[u8; 32],
    expected_address: &[u8; 32],
    initializer: &Identity,
    pda_account: &mut StorageAccount,
    min_balance: u64,
    mode: CreateMode,
    name: String,
    msg: String,
) -> (r: Result<(), StudentIntroError>)
    ensures
        ({
            let (res, post) = spec_create_at(
                program_id@,
                expected_address@,
                initializer.is_signer,
                old(pda_account)@,
                min_balance,
                mode,
                name@,
                msg@,
            );
            r == res && final(pda_account)@ == post
        }),
{
    if !initializer.is_signer {
        return Err(StudentIntroError::MissingSignature);
    }
    if !bytes32_eq(&pda_account.address, expected_address) {
        return Err(StudentIntroError::InvalidAddress);
    }
    let name_len: usize = name.as_str().as_bytes().len();
    let msg_len: usize = msg.as_str().as_bytes().len();
    if encoding_exceeds_capacity(name_len, msg_len) {
        return Err(StudentIntroError::InvalidDataLength);
    }
    let record = StudentIntroAccountState { is_initialized: true, name, msg };
    proof {
        crate::codec::lemma_encoded_len(record@);
    }
    if pda_account.data.len() == 0 {
        pda_account.owner = *program_id;
        pda_account.lamports = min_balance;
        pda_account.data = zeroed_record_data();
        write_record(&mut pda_account.data, &record);
        Ok(())
    } else if mode == CreateMode::RejectExisting {
        Err(StudentIntroError::AlreadyInUse)
    } else if bytes32_eq(&pda_account.owner, program_id) && pda_account.data.len()
        == MAX_RECORD_SIZE {
        write_record(&mut pda_account.data, &record);
        Ok(())
    } else {
        Err(StudentIntroError::AlreadyInUse)
    }
}

/// Create a record: derive the storage address from the requester's key and
/// the chosen name, validate everything, allocate and write.
pub fn add_student_intro(
    program_id: &[u8; 32],
    initializer: &Identity,
    pda_account: &mut StorageAccount,
    min_balance: u64,
    mode: CreateMode,
    name: String,
    msg: String,
) -> (r: Result<(), StudentIntroError>)
    ensures
        ({
            let (res, post) = spec_add_student_intro(
                program_id@,
                initializer.key@,
                initializer.is_signer,
                old(pda_account)@,
                min_balance,
                mode,
                name@,
                msg@,
            );
            r == res && final(pda_account)@ == post
        }),
{
    if !initializer.is_signer {
        return Err(StudentIntroError::MissingSignature);
    }
    match derive_record_address(&initializer.key, name.as_str(), program_id) {
        None => Err(StudentIntroError::DerivationFailed),
        Some((pda, _bump)) => add_student_intro_at(
            program_id,
            &pda,
            initializer,
            pda_account,
            min_balance,
            mode,
            name,
            msg,
        ),
    }
}

/// Update a record's message: require the signature and this processor's
/// ownership, decode the stored record, re-derive the address from the
/// *stored* name, and check initialization, the unchanged name and the
/// capacity before writing.
pub fn update_student_intro(
    program_id: &[u8; 32],
    initializer: &Identity,
    pda_account: &mut StorageAccount,
    name: String,
    msg: String,
) -> (r: Result<(), StudentIntroError>)
    ensures
        ({
            let (res, post) = spec_update_student_intro(
                program_id@,
                initializer.key@,
                initializer.is_signer,
                old(pda_account)@,
                name@,
                msg@,
            );
            r == res && final(pda_account)@ == post
        }),
{
    if !initializer.is_signer {
        return Err(StudentIntroError::MissingSignature);
    }
    if !bytes32_eq(&pda_account.owner, program_id) {
        return Err(StudentIntroError::IllegalOwner);
    }
    let record = match deserialize_record(pda_account.data.as_slice()) {
        Some(rec) => rec,
        None => {
            return Err(StudentIntroError::CorruptRecord);
        },
    };
    let (pda, _bump) = match derive_record_address(
        &initializer.key,
        record.name.as_str(),
        program_id,
    ) {
        Some(p) => p,
        None => {
            return Err(StudentIntroError::DerivationFailed);
        },
    };
    if !bytes32_eq(&pda_account.address, &pda) {
        return Err(StudentIntroError::InvalidAddress);
    }
    if !record.is_initialized() {
        return Err(StudentIntroError::UninitializedAccount);
    }
    if record.name != name {
        return Err(StudentIntroError::InvalidStudentName);
    }
    let name_len: usize = record.name.as_str().as_bytes().len();
    let msg_len: usize = msg.as_str().as_bytes().len();
    if encoding_exceeds_capacity(name_len, msg_len) {
        return Err(StudentIntroError::InvalidDataLength);
    }
    if 1 + 4 + name_len + 4 + msg_len > pda_account.data.len() {
        return Err(StudentIntroError::InvalidDataLength);
    }
    let new_record = StudentIntroAccountState {
        is_initialized: true,
        name: record.name,
        msg,
    };
    proof {
        crate::codec::lemma_encoded_len(new_record@);
    }
    write_record(&mut pda_account.data, &new_record);
    Ok(())
}

/// Process one request: decode the operation tag and payload, then dispatch
/// to create or update.
pub fn process_instruction(
    program_id: &[u8; 32],
    initializer: &Identity,
    pda_account: &mut StorageAccount,
    min_balance: u64,
    mode: CreateMode,
    instruction_data: &[u8],
) -> (r: Result<(), StudentIntroError>)
    ensures
        ({
            let (res, post) = spec_process_instruction(
                program_id@,
                initializer.key@,
                initializer.is_signer,
                old(pda_account)@,
                min_balance,
                mode,
                instruction_data@,
            );
            r == res && final(pda_account)@ == post
        }),
{
    let instruction = match StudentIntroInstruction::unpack(instruction_data) {
        Ok(ins) => ins,
        Err(e) => {
            return Err(e);
        },
    };
    match instruction {
        StudentIntroInstruction::AddStudentIntro { name, msg } => add_student_intro(
            program_id,
            initializer,
            pda_account,
            min_balance,
            mode,
            name,
            msg,
        ),
        StudentIntroInstruction::UpdateStudentIntro { name, msg } => update_student_intro(
            program_id,
            initializer,
            pda_account,
            name,
            msg,
        ),
    }
}

} // verus!
