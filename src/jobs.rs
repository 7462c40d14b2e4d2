use vstd::prelude::*;
use crate::token::{all_digits, dec_digits, dec_value, lemma_dec_round_trip, parse_dec, push_dec};

verus! {

#[derive(Clone, Copy, Debug, PartialEq, Eq, Structural)]
pub enum JobStatus {
    Created,
    LockedForProcessing,
    PendingVerification,
    Completed,
    VerificationFailed,
}

#[derive(Clone, Copy, Debug, PartialEq, Eq, Structural)]
pub enum JobVerificationStatus {
    Pending,
    Verified,
    Rejected,
}

#[derive(Clone, Copy, Debug, PartialEq, Eq, Structural)]
pub enum JobError {
    /// A job of this type and internal id exists already.
    AlreadyExists,
    /// The job is not in a state that allows the operation.
    InvalidStatus(JobStatus),
    /// A metadata value is not a number.
    InvalidMetadata,
}

/// The key of the metadata entry that counts processing attempts.
pub const JOB_PROCESS_ATTEMPT_METADATA_KEY: &'static str = "process_attempt_no";

/// Metadata of a job: keys and values as UTF-8 text.
pub type Metadata = Vec<(Vec<u8>, Vec<u8>)>;

/// The value of the first entry with this key.
pub open spec fn metadata_get(m: Seq<(Vec<u8>, Vec<u8>)>, key: Seq<u8>) -> Option<Seq<u8>>
    decreases m.len(),
{
    if m.len() == 0 {
        None
    } else if m[0].0@ == key {
        Some(m[0].1@)
    } else {
        metadata_get(m.drop_first(), key)
    }
}

/// The number a metadata entry holds: zero where there is none.
pub open spec fn metadata_u64(m: Seq<(Vec<u8>, Vec<u8>)>, key: Seq<u8>) -> Option<u64> {
    match metadata_get(m, key) {
        None => Some(0),
        Some(v) => if v.len() > 0 && all_digits(v) && dec_value(v) <= u64::MAX {
            Some(dec_value(v) as u64)
        } else {
            None
        },
    }
}

fn copy_bytes(v: &[u8]) -> (r: Vec<u8>)
    ensures
        r@ == v@,
{
    let mut out: Vec<u8> = Vec::new();
    let mut i: usize = 0;
    while i < v.len()
        invariant
            i <= v@.len(),
            out@ == v@.subrange(0, i as int),
        decreases v@.len() - i,
    {
        out.push(v[i]);
        i = i + 1;
        assert(out@ =~= v@.subrange(0, i as int));
    }
    assert(v@.subrange(0, i as int) =~= v@);
    out
}

fn bytes_equal(a: &[u8], b: &[u8]) -> (r: bool)
    ensures
        r <==> a@ == b@,
{
    if a.len() != b.len() {
        return false;
    }
    let mut i: usize = 0;
    while i < a.len()
        invariant
            i <= a@.len() == b@.len(),
            forall|j: int| 0 <= j < i ==> a@[j] == b@[j],
        decreases a@.len() - i,
    {
        if a[i] != b[i] {
            return false;
        }
        i = i + 1;
    }
    assert(a@ =~= b@);
    true
}

/// The index of the first entry with this key.
fn find_key(m: &Metadata, key: &[u8]) -> (r: Option<usize>)
    ensures
        r is None ==> metadata_get(m@, key@) is None,
        r matches Some(i) ==> i < m@.len() && m@[i as int].0@ == key@ && metadata_get(m@, key@) == Some(
            m@[i as int].1@,
        ) && forall|j: int| 0 <= j < i ==> m@[j].0@ != key@,
{
    let mut i: usize = 0;
    assert(m@.subrange(0, m@.len() as int) =~= m@);
    while i < m.len()
        invariant
            i <= m@.len(),
            metadata_get(m@, key@) == metadata_get(m@.subrange(i as int, m@.len() as int), key@),
            forall|j: int| 0 <= j < i ==> m@[j].0@ != key@,
        decreases m@.len() - i,
    {
        let ghost rest = m@.subrange(i as int, m@.len() as int);
        assert(rest.drop_first() =~= m@.subrange(i + 1, m@.len() as int));
        if bytes_equal(m[i].0.as_slice(), key) {
            assert(rest[0] == m@[i as int]);
            return Some(i);
        }
        i = i + 1;
    }
    None
}

/// Reads a count from the metadata; an absent entry counts zero.
pub fn get_u64_from_metadata(metadata: &Metadata, key: &[u8]) -> (r: Result<u64, JobError>)
    ensures
        r matches Ok(v) ==> metadata_u64(metadata@, key@) == Some(v),
        r is Err <==> metadata_u64(metadata@, key@) is None,
        r is Err ==> r == Err::<u64, JobError>(JobError::InvalidMetadata),
{
    match find_key(metadata, key) {
        None => Ok(0),
        Some(i) => {
            let v = &metadata[i].1;
            if v.len() == 0 {
                return Err(JobError::InvalidMetadata);
            }
            assert(v@.subrange(0, v@.len() as int) =~= v@);
            match parse_dec(v.as_slice(), 0, v.len()) {
                Some(n) => Ok(n),
                None => Err(JobError::InvalidMetadata),
            }
        },
    }
}

/// The metadata with the count under `key` one higher, an absent entry counting zero: the
/// entry's value is replaced, or a new entry is added at the end.
pub fn increment_key_in_metadata(metadata: &Metadata, key: &[u8]) -> (r: Result<Metadata, JobError>)
    ensures
        r is Ok <==> (metadata_u64(metadata@, key@) matches Some(v) && v < u64::MAX),
        r matches Ok(m) ==> metadata_get(m@, key@) == Some(
            dec_digits((metadata_u64(metadata@, key@)->Some_0 + 1) as nat),
        ) && m@.len() >= metadata@.len() && metadata_u64(m@, key@) == Some(
            (metadata_u64(metadata@, key@)->Some_0 + 1) as u64,
        ),
        r is Err ==> r == Err::<Metadata, JobError>(JobError::InvalidMetadata),
{
    let attempt = match get_u64_from_metadata(metadata, key) {
        Ok(a) => a,
        Err(e) => {
            return Err(e);
        },
    };
    if attempt == u64::MAX {
        return Err(JobError::InvalidMetadata);
    }
    let mut value: Vec<u8> = Vec::new();
    push_dec(&mut value, attempt + 1);
    assert(value@ =~= dec_digits((attempt + 1) as nat));
    let mut out: Metadata = Vec::new();
    let mut i: usize = 0;
    while i < metadata.len()
        invariant
            i <= metadata@.len(),
            out@.len() == i,
            forall|j: int| 0 <= j < i ==> (#[trigger] out@[j]).0@ == metadata@[j].0@ && out@[j].1@ == metadata@[j].1@,
        decreases metadata@.len() - i,
    {
        out.push((copy_bytes(metadata[i].0.as_slice()), copy_bytes(metadata[i].1.as_slice())));
        i = i + 1;
    }
    let pos = find_key(metadata, key);
    let ghost new_value = dec_digits((attempt + 1) as nat);
    proof { lemma_dec_round_trip((attempt + 1) as nat); }
    match pos {
        Some(p) => {
            out.set(p, (copy_bytes(metadata[p].0.as_slice()), value));
            proof { lemma_metadata_get_at(out@, key@, p as int); }
        },
        None => {
            out.push((copy_bytes(key), value));
            proof {
                assert forall|j: int| 0 <= j < metadata@.len() implies out@[j].0@ != key@ by {
                    lemma_metadata_get_none(metadata@, key@, j);
                }
                lemma_metadata_get_at(out@, key@, metadata@.len() as int);
            }
        },
    }
    Ok(out)
}

proof fn lemma_metadata_get_at(m: Seq<(Vec<u8>, Vec<u8>)>, key: Seq<u8>, p: int)
    requires
        0 <= p < m.len(),
        m[p].0@ == key,
        forall|j: int| 0 <= j < p ==> m[j].0@ != key,
    ensures
        metadata_get(m, key) == Some(m[p].1@),
    decreases p,
{
    if p > 0 {
        lemma_metadata_get_at(m.drop_first(), key, p - 1);
    }
}

proof fn lemma_metadata_get_none(m: Seq<(Vec<u8>, Vec<u8>)>, key: Seq<u8>, j: int)
    requires
        metadata_get(m, key) is None,
        0 <= j < m.len(),
    ensures
        m[j].0@ != key,
    decreases j,
{
    if j > 0 {
        lemma_metadata_get_none(m.drop_first(), key, j - 1);
    }
}

/// A job is created only where none of its type and internal id exists.
pub fn create_job(existing_job: bool) -> (r: Result<(), JobError>)
    ensures
        existing_job ==> r == Err::<(), JobError>(JobError::AlreadyExists),
        !existing_job ==> r is Ok,
{
    if existing_job {
        return Err(JobError::AlreadyExists);
    }
    Ok(())
}

/// A job is processed where it was just created or its last verification failed; it is
/// then locked for processing.
pub fn process_job(status: JobStatus) -> (r: Result<JobStatus, JobError>)
    ensures
        (status == JobStatus::Created || status == JobStatus::VerificationFailed) ==> r == Ok::<
            JobStatus,
            JobError,
        >(JobStatus::LockedForProcessing),
        !(status == JobStatus::Created || status == JobStatus::VerificationFailed) ==> r == Err::<
            JobStatus,
            JobError,
        >(JobError::InvalidStatus(status)),
{
    match status {
        JobStatus::Created | JobStatus::VerificationFailed => Ok(JobStatus::LockedForProcessing),
        _ => Err(JobError::InvalidStatus(status)),
    }
}

/// A job whose work is done.
#[derive(Debug)]
pub struct ProcessedJob {
    pub status: JobStatus,
    pub metadata: Metadata,
}

/// What follows the work of a job: it waits for verification, and the count of processing
/// attempts under `key` is one higher, an absent count reading as zero.
pub fn job_processed(metadata: &Metadata, key: &[u8]) -> (r: Result<ProcessedJob, JobError>)
    ensures
        r is Ok <==> (metadata_u64(metadata@, key@) matches Some(v) && v < u64::MAX),
        r is Err ==> r matches Err(JobError::InvalidMetadata),
        r matches Ok(p) ==> p.status == JobStatus::PendingVerification && metadata_u64(p.metadata@, key@) == Some(
            (metadata_u64(metadata@, key@)->Some_0 + 1) as u64,
        ),
{
    match increment_key_in_metadata(metadata, key) {
        Ok(m) => Ok(ProcessedJob { status: JobStatus::PendingVerification, metadata: m }),
        Err(e) => Err(e),
    }
}

/// A job is verified only while it waits for verification.
pub fn check_can_verify(status: JobStatus) -> (r: Result<(), JobError>)
    ensures
        status == JobStatus::PendingVerification ==> r is Ok,
        status != JobStatus::PendingVerification ==> r == Err::<(), JobError>(JobError::InvalidStatus(status)),
{
    match status {
        JobStatus::PendingVerification => Ok(()),
        _ => Err(JobError::InvalidStatus(status)),
    }
}

#[derive(Clone, Copy, Debug, PartialEq, Eq, Structural)]
pub enum VerifyAction {
    /// Nothing more is queued.
    Done,
    /// The job goes back to the processing queue.
    RetryProcessing,
    /// The job goes back to the verification queue, after the polling delay.
    RecheckVerification,
}

#[derive(Clone, Copy, Debug, PartialEq, Eq, Structural)]
pub struct VerifyDecision {
    pub new_status: Option<JobStatus>,
    pub action: VerifyAction,
}

pub open spec fn verification_spec(
    verification: JobVerificationStatus,
    process_attempts: u64,
    max_process_attempts: u64,
) -> VerifyDecision {
    match verification {
        JobVerificationStatus::Verified => VerifyDecision {
            new_status: Some(JobStatus::Completed),
            action: VerifyAction::Done,
        },
        JobVerificationStatus::Rejected => VerifyDecision {
            new_status: Some(JobStatus::VerificationFailed),
            action: if process_attempts < max_process_attempts {
                VerifyAction::RetryProcessing
            } else {
                VerifyAction::Done
            },
        },
        JobVerificationStatus::Pending => VerifyDecision { new_status: None, action: VerifyAction::RecheckVerification },
    }
}

/// What follows a verification: a verified job completes; a rejected one fails its
/// verification and is processed again while it has attempts left; a pending one is
/// checked again later.
pub fn verification_decision(
    verification: JobVerificationStatus,
    process_attempts: u64,
    max_process_attempts: u64,
) -> (r: VerifyDecision)
    ensures
        r == verification_spec(verification, process_attempts, max_process_attempts),
{
    match verification {
        JobVerificationStatus::Verified => VerifyDecision { new_status: Some(JobStatus::Completed), action: VerifyAction::Done },
        JobVerificationStatus::Rejected => VerifyDecision {
            new_status: Some(JobStatus::VerificationFailed),
            action: if process_attempts < max_process_attempts {
                VerifyAction::RetryProcessing
            } else {
                VerifyAction::Done
            },
        },
        JobVerificationStatus::Pending => VerifyDecision { new_status: None, action: VerifyAction::RecheckVerification },
    }
}

/// What follows the verification of a job in `status`: only a job waiting for verification
/// is verified, with the outcome of [`verification_decision`].
pub fn verify_job(
    status: JobStatus,
    verification: JobVerificationStatus,
    process_attempts: u64,
    max_process_attempts: u64,
) -> (r: Result<VerifyDecision, JobError>)
    ensures
        status != JobStatus::PendingVerification ==> r == Err::<VerifyDecision, JobError>(
            JobError::InvalidStatus(status),
        ),
        status == JobStatus::PendingVerification ==> r == Ok::<VerifyDecision, JobError>(
            verification_spec(verification, process_attempts, max_process_attempts),
        ),
{
    match check_can_verify(status) {
        Err(e) => Err(e),
        Ok(()) => Ok(verification_decision(verification, process_attempts, max_process_attempts)),
    }
}

} // verus!
