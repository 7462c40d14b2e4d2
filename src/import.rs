use vstd::prelude::*;
use crate::felt::Felt;
use crate::header::{felt_or_zero, unwrap_felt_or_zero, v0_13_2, v0_13_2_spec, version_lt, Header};

verus! {

/// Switches that relax block verification.
#[derive(Clone, Copy, Debug, PartialEq, Eq, Structural)]
pub struct BlockValidationConfig {
    /// Trust class hashes.
    pub trust_class_hashes: bool,
    /// Ignore the order of the blocks to allow starting at some height.
    pub trust_parent_hash: bool,
    /// Do not check anything.
    pub no_check: bool,
}

impl Default for BlockValidationConfig {
    fn default() -> (r: BlockValidationConfig)
        ensures
            r == (BlockValidationConfig { trust_class_hashes: false, trust_parent_hash: false, no_check: false }),
    {
        BlockValidationConfig { trust_class_hashes: false, trust_parent_hash: false, no_check: false }
    }
}

impl BlockValidationConfig {
    pub fn trust_parent_hash(self, trust_parent_hash: bool) -> (r: BlockValidationConfig)
        ensures
            r == (BlockValidationConfig { trust_parent_hash, ..self }),
    {
        BlockValidationConfig { trust_parent_hash, ..self }
    }

    pub fn all_verifications_disabled(self, no_check: bool) -> (r: BlockValidationConfig)
        ensures
            r == (BlockValidationConfig { no_check, ..self }),
    {
        BlockValidationConfig { no_check, ..self }
    }
}

#[derive(Clone, Copy, Debug, PartialEq, Eq, Structural)]
pub enum ClassType {
    Sierra,
    Legacy,
}

/// What a state diff declares for a class: a Sierra class with its compiled class hash,
/// or a legacy class.
#[derive(Clone, Copy, Debug, PartialEq, Eq)]
pub enum DeclaredClassCompiledClass {
    Sierra(Felt),
    Legacy,
}

#[derive(Clone, Debug, PartialEq)]
pub enum BlockImportError {
    TransactionCount { got: u64, expected: u64 },
    TransactionCommitment { got: Felt, expected: Felt },
    EventCount { got: u64, expected: u64 },
    EventCommitment { got: Felt, expected: Felt },
    StateDiffLength { got: u64, expected: u64 },
    StateDiffCommitment { got: Felt, expected: Felt },
    ReceiptCommitment { got: Felt, expected: Felt },
    UnexpectedClass { class_hash: Felt },
    ClassType { class_hash: Felt, got: ClassType, expected: ClassType },
    ClassHash { got: Felt, expected: Felt },
    ClassCount { got: u64, expected: u64 },
    CompiledClassHash { class_hash: Felt, got: Felt, expected: Felt },
    CompilationClassError { class_hash: Felt, error: String },
    ComputeClassHash { class_hash: Felt, error: String },
    BlockNumber { got: u64, expected: u64 },
    GlobalStateRoot { got: Felt, expected: Felt },
    /// Internal error, see [`BlockImportError::is_internal`].
    InternalDb { context: String, error: String },
    /// Internal error, see [`BlockImportError::is_internal`].
    Internal(String),
}

impl BlockImportError {
    /// Unrecoverable errors.
    pub fn is_internal(&self) -> (r: bool)
        ensures
            r <==> (self is InternalDb || self is Internal),
    {
        match self {
            BlockImportError::InternalDb { .. } | BlockImportError::Internal(_) => true,
            _ => false,
        }
    }
}

/// A class as it was received, with the outcome of the two computations made on it: its
/// class hash, and for a Sierra class the compiled class hash of its compilation to CASM.
#[derive(Debug)]
pub enum ClassInfo {
    Sierra {
        compiled_class_hash: Felt,
        computed_class_hash: Result<Felt, String>,
        compiled: Result<Felt, String>,
    },
    Legacy { computed_class_hash: Result<Felt, String> },
}

#[derive(Debug)]
pub struct ClassInfoWithHash {
    pub class_hash: Felt,
    pub class_info: ClassInfo,
}

#[derive(Clone, Copy, Debug, PartialEq)]
pub enum ConvertedClass {
    Sierra { class_hash: Felt, compiled_class_hash: Felt },
    Legacy { class_hash: Felt },
}

/// Blocks before v0.13.2 whose commitments are taken from the block rather than checked.
pub open spec fn pre_v0_13_2_special(h: Header, allow_pre_v0_13_2: bool) -> bool {
    allow_pre_v0_13_2 && version_lt(h.protocol_version, v0_13_2_spec())
}

/// The entry declared for a class hash: the first one of that hash.
pub open spec fn lookup_declared(
    s: Seq<(Felt, DeclaredClassCompiledClass)>,
    class_hash: Felt,
) -> Option<DeclaredClassCompiledClass>
    decreases s.len(),
{
    if s.len() == 0 {
        None
    } else if s[0].0.bytes@ == class_hash.bytes@ {
        Some(s[0].1)
    } else {
        lookup_declared(s.drop_first(), class_hash)
    }
}

/// What checking and converting one declared class gives.
pub open spec fn class_verdict(
    config: BlockValidationConfig,
    class: ClassInfoWithHash,
    check_against: Seq<(Felt, DeclaredClassCompiledClass)>,
) -> Result<ConvertedClass, BlockImportError> {
    let class_hash = class.class_hash;
    match lookup_declared(check_against, class_hash) {
        None => Err(BlockImportError::UnexpectedClass { class_hash }),
        Some(declared) => match class.class_info {
            ClassInfo::Sierra { compiled_class_hash, computed_class_hash, compiled } => match declared {
                DeclaredClassCompiledClass::Legacy => Err(
                    BlockImportError::ClassType {
                        class_hash,
                        got: ClassType::Legacy,
                        expected: ClassType::Sierra,
                    },
                ),
                DeclaredClassCompiledClass::Sierra(expected) => {
                    if !config.no_check && compiled_class_hash.bytes@ != expected.bytes@ {
                        Err(BlockImportError::CompiledClassHash { class_hash, got: compiled_class_hash, expected })
                    } else if !config.no_check && !config.trust_class_hashes && computed_class_hash is Err {
                        Err(BlockImportError::ComputeClassHash { class_hash, error: computed_class_hash->Err_0 })
                    } else if !config.no_check && !config.trust_class_hashes && class_hash.bytes@
                        != computed_class_hash->Ok_0.bytes@ {
                        Err(BlockImportError::ClassHash { got: class_hash, expected: computed_class_hash->Ok_0 })
                    } else {
                        match compiled {
                            Err(error) => Err(BlockImportError::CompilationClassError { class_hash, error }),
                            Ok(got_compiled) => {
                                if !config.no_check && got_compiled.bytes@ != compiled_class_hash.bytes@ {
                                    Err(
                                        BlockImportError::CompiledClassHash {
                                            class_hash,
                                            got: compiled_class_hash,
                                            expected: got_compiled,
                                        },
                                    )
                                } else {
                                    Ok(ConvertedClass::Sierra { class_hash, compiled_class_hash: got_compiled })
                                }
                            },
                        }
                    }
                },
            },
            ClassInfo::Legacy { computed_class_hash } => {
                if !config.no_check && declared != DeclaredClassCompiledClass::Legacy {
                    Err(
                        BlockImportError::ClassType {
                            class_hash,
                            got: ClassType::Sierra,
                            expected: ClassType::Legacy,
                        },
                    )
                } else if !config.trust_class_hashes && computed_class_hash is Err {
                    Err(BlockImportError::ComputeClassHash { class_hash, error: computed_class_hash->Err_0 })
                } else if !config.trust_class_hashes && !config.no_check && class_hash.bytes@
                    != computed_class_hash->Ok_0.bytes@ {
                    Err(BlockImportError::ClassHash { got: class_hash, expected: computed_class_hash->Ok_0 })
                } else {
                    Ok(ConvertedClass::Legacy { class_hash })
                }
            },
        },
    }
}

/// Verification of the parts of a block, and of the global state root after a range.
#[derive(Clone, Copy, Debug)]
pub struct BlockImporter {
    pub config: BlockValidationConfig,
}

fn lookup_declared_exec(
    check_against: &Vec<(Felt, DeclaredClassCompiledClass)>,
    class_hash: &Felt,
) -> (r: Option<DeclaredClassCompiledClass>)
    ensures
        r == lookup_declared(check_against@, *class_hash),
{
    let mut i: usize = 0;
    assert(check_against@.subrange(0, check_against@.len() as int) =~= check_against@);
    while i < check_against.len()
        invariant
            i <= check_against@.len(),
            lookup_declared(check_against@, *class_hash) == lookup_declared(
                check_against@.subrange(i as int, check_against@.len() as int),
                *class_hash,
            ),
        decreases check_against@.len() - i,
    {
        let ghost rest = check_against@.subrange(i as int, check_against@.len() as int);
        assert(rest.drop_first() =~= check_against@.subrange(i + 1, check_against@.len() as int));
        if check_against[i].0.equals(class_hash) {
            return Some(check_against[i].1);
        }
        i = i + 1;
    }
    assert(check_against@.subrange(i as int, check_against@.len() as int).len() == 0);
    None
}

impl BlockImporter {
    pub fn new(config: BlockValidationConfig) -> (r: BlockImporter)
        ensures
            r.config == config,
    {
        BlockImporter { config }
    }

    pub fn is_trust_parent_hash(&self) -> (r: bool)
        ensures
            r == self.config.trust_parent_hash,
    {
        self.config.trust_parent_hash
    }

    /// Checks that the header is the one of block `block_n`.
    pub fn verify_header(&self, block_n: u64, header: &Header) -> (r: Result<(), BlockImportError>)
        ensures
            !self.config.no_check && block_n != header.block_number ==> r == Err::<(), BlockImportError>(
                BlockImportError::BlockNumber { expected: block_n, got: header.block_number },
            ),
            self.config.no_check || block_n == header.block_number ==> r is Ok,
    {
        if !self.config.no_check && block_n != header.block_number {
            return Err(BlockImportError::BlockNumber { expected: block_n, got: header.block_number });
        }
        Ok(())
    }

    /// Checks the transaction count and the transaction and receipt commitments of a block
    /// against its header. `transaction_commitment` and `receipt_commitment` are those
    /// recomputed from the block's transactions and receipts with the block's effective
    /// version. Returns the two commitments.
    pub fn verify_transactions(
        &self,
        block_n: u64,
        transaction_count: u64,
        transaction_commitment: Felt,
        receipt_commitment: Felt,
        check_against: &Header,
        allow_pre_v0_13_2: bool,
    ) -> (r: Result<(Felt, Felt), BlockImportError>)
        ensures
            ({
                let checks = !self.config.no_check;
                let special = pre_v0_13_2_special(*check_against, allow_pre_v0_13_2);
                let count_bad = checks && transaction_count != check_against.transaction_count;
                let tx_bad = checks && !special && transaction_commitment.bytes@
                    != check_against.transaction_commitment.bytes@;
                let receipt_bad = checks && !special && receipt_commitment.bytes@ != felt_or_zero(
                    check_against.receipt_commitment,
                );
                &&& count_bad ==> r == Err::<(Felt, Felt), BlockImportError>(
                    BlockImportError::TransactionCount {
                        got: transaction_count,
                        expected: check_against.transaction_count,
                    },
                )
                &&& !count_bad && tx_bad ==> r == Err::<(Felt, Felt), BlockImportError>(
                    BlockImportError::TransactionCommitment {
                        got: transaction_commitment,
                        expected: check_against.transaction_commitment,
                    },
                )
                &&& !count_bad && !tx_bad && receipt_bad ==> (r matches Err(
                    BlockImportError::ReceiptCommitment { got, expected },
                ) && got == receipt_commitment && expected.bytes@ == felt_or_zero(
                    check_against.receipt_commitment,
                ))
                &&& !count_bad && !tx_bad && !receipt_bad ==> r == Ok::<(Felt, Felt), BlockImportError>(
                    (transaction_commitment, receipt_commitment),
                )
            }),
    {
        let special = allow_pre_v0_13_2 && check_against.protocol_version.less_than(&v0_13_2());
        let expected = check_against.transaction_count;
        if !self.config.no_check && expected != transaction_count {
            return Err(BlockImportError::TransactionCount { got: transaction_count, expected });
        }
        let expected = check_against.transaction_commitment;
        if !self.config.no_check && !special && !expected.equals(&transaction_commitment) {
            return Err(BlockImportError::TransactionCommitment { got: transaction_commitment, expected });
        }
        let expected = unwrap_felt_or_zero(&check_against.receipt_commitment);
        if !self.config.no_check && !special && !expected.equals(&receipt_commitment) {
            return Err(BlockImportError::ReceiptCommitment { got: receipt_commitment, expected });
        }
        Ok((transaction_commitment, receipt_commitment))
    }

    /// Checks the event count and the event commitment of a block against its header.
    /// `event_commitment` is the one recomputed from the block's events with the block's
    /// effective version. Returns it.
    pub fn verify_events(
        &self,
        block_n: u64,
        event_count: u64,
        event_commitment: Felt,
        check_against: &Header,
        allow_pre_v0_13_2: bool,
    ) -> (r: Result<Felt, BlockImportError>)
        ensures
            ({
                let checks = !self.config.no_check;
                let special = pre_v0_13_2_special(*check_against, allow_pre_v0_13_2);
                let count_bad = checks && event_count != check_against.event_count;
                let commitment_bad = checks && !special && event_commitment.bytes@
                    != check_against.event_commitment.bytes@;
                &&& count_bad ==> r == Err::<Felt, BlockImportError>(
                    BlockImportError::EventCount { got: event_count, expected: check_against.event_count },
                )
                &&& !count_bad && commitment_bad ==> r == Err::<Felt, BlockImportError>(
                    BlockImportError::EventCommitment {
                        got: event_commitment,
                        expected: check_against.event_commitment,
                    },
                )
                &&& !count_bad && !commitment_bad ==> r == Ok::<Felt, BlockImportError>(event_commitment)
            }),
    {
        let special = allow_pre_v0_13_2 && check_against.protocol_version.less_than(&v0_13_2());
        let expected = check_against.event_count;
        if !self.config.no_check && expected != event_count {
            return Err(BlockImportError::EventCount { got: event_count, expected });
        }
        let expected = check_against.event_commitment;
        if !self.config.no_check && !special && !expected.equals(&event_commitment) {
            return Err(BlockImportError::EventCommitment { got: event_commitment, expected });
        }
        Ok(event_commitment)
    }

    /// Checks the length and the commitment of a state diff against the header. A length or
    /// commitment that the header lacks reads as zero. Returns the commitment.
    pub fn verify_state_diff(
        &self,
        block_n: u64,
        state_diff_length: u64,
        state_diff_commitment: Felt,
        check_against: &Header,
        allow_pre_v0_13_2: bool,
    ) -> (r: Result<Felt, BlockImportError>)
        ensures
            ({
                let checks = !self.config.no_check;
                let special = pre_v0_13_2_special(*check_against, allow_pre_v0_13_2);
                let expected_len = match check_against.state_diff_length {
                    Some(n) => n,
                    None => 0u64,
                };
                let length_bad = checks && state_diff_length != expected_len;
                let commitment_bad = checks && !special && state_diff_commitment.bytes@ != felt_or_zero(
                    check_against.state_diff_commitment,
                );
                &&& length_bad ==> r == Err::<Felt, BlockImportError>(
                    BlockImportError::StateDiffLength { got: state_diff_length, expected: expected_len },
                )
                &&& !length_bad && commitment_bad ==> (r matches Err(
                    BlockImportError::StateDiffCommitment { got, expected },
                ) && got == state_diff_commitment && expected.bytes@ == felt_or_zero(
                    check_against.state_diff_commitment,
                ))
                &&& !length_bad && !commitment_bad ==> r == Ok::<Felt, BlockImportError>(
                    state_diff_commitment,
                )
            }),
    {
        let special = allow_pre_v0_13_2 && check_against.protocol_version.less_than(&v0_13_2());
        let expected = match check_against.state_diff_length {
            Some(n) => n,
            None => 0,
        };
        if !self.config.no_check && expected != state_diff_length {
            return Err(BlockImportError::StateDiffLength { got: state_diff_length, expected });
        }
        let expected = unwrap_felt_or_zero(&check_against.state_diff_commitment);
        if !self.config.no_check && !special && !expected.equals(&state_diff_commitment) {
            return Err(BlockImportError::StateDiffCommitment { got: state_diff_commitment, expected });
        }
        Ok(state_diff_commitment)
    }

    /// Checks one declared class and converts it.
    fn verify_compile_class(
        &self,
        class: &ClassInfoWithHash,
        check_against: &Vec<(Felt, DeclaredClassCompiledClass)>,
    ) -> (r: Result<ConvertedClass, BlockImportError>)
        ensures
            r == class_verdict(self.config, *class, check_against@),
    {
        let class_hash = class.class_hash;
        let declared = match lookup_declared_exec(check_against, &class_hash) {
            Some(d) => d,
            None => {
                return Err(BlockImportError::UnexpectedClass { class_hash });
            },
        };
        match &class.class_info {
            ClassInfo::Sierra { compiled_class_hash, computed_class_hash, compiled } => {
                let expected = match declared {
                    DeclaredClassCompiledClass::Sierra(e) => e,
                    DeclaredClassCompiledClass::Legacy => {
                        return Err(
                            BlockImportError::ClassType {
                                class_hash,
                                got: ClassType::Legacy,
                                expected: ClassType::Sierra,
                            },
                        );
                    },
                };
                if !self.config.no_check && !compiled_class_hash.equals(&expected) {
                    return Err(
                        BlockImportError::CompiledClassHash {
                            class_hash,
                            got: *compiled_class_hash,
                            expected,
                        },
                    );
                }
                if !self.config.no_check && !self.config.trust_class_hashes {
                    match computed_class_hash {
                        Err(error) => {
                            return Err(BlockImportError::ComputeClassHash { class_hash, error: error.clone() });
                        },
                        Ok(expected) => {
                            if !class_hash.equals(expected) {
                                return Err(BlockImportError::ClassHash { got: class_hash, expected: *expected });
                            }
                        },
                    }
                }
                match compiled {
                    Err(error) => Err(BlockImportError::CompilationClassError { class_hash, error: error.clone() }),
                    Ok(got_compiled) => {
                        if !self.config.no_check && !got_compiled.equals(compiled_class_hash) {
                            Err(
                                BlockImportError::CompiledClassHash {
                                    class_hash,
                                    got: *compiled_class_hash,
                                    expected: *got_compiled,
                                },
                            )
                        } else {
                            Ok(ConvertedClass::Sierra { class_hash, compiled_class_hash: *got_compiled })
                        }
                    },
                }
            },
            ClassInfo::Legacy { computed_class_hash } => {
                let declared_legacy = match declared {
                    DeclaredClassCompiledClass::Legacy => true,
                    DeclaredClassCompiledClass::Sierra(_) => false,
                };
                if !self.config.no_check && !declared_legacy {
                    return Err(
                        BlockImportError::ClassType {
                            class_hash,
                            got: ClassType::Sierra,
                            expected: ClassType::Legacy,
                        },
                    );
                }
                if !self.config.trust_class_hashes {
                    match computed_class_hash {
                        Err(error) => {
                            return Err(BlockImportError::ComputeClassHash { class_hash, error: error.clone() });
                        },
                        Ok(expected) => {
                            if !self.config.no_check && !class_hash.equals(expected) {
                                return Err(BlockImportError::ClassHash { got: class_hash, expected: *expected });
                            }
                        },
                    }
                }
                Ok(ConvertedClass::Legacy { class_hash })
            },
        }
    }

    /// Checks the classes that a block declares against what its state diff declares, and
    /// converts them. Fails on a count mismatch, else on the first class that fails.
    pub fn verify_compile_classes(
        &self,
        declared_classes: &Vec<ClassInfoWithHash>,
        check_against: &Vec<(Felt, DeclaredClassCompiledClass)>,
    ) -> (r: Result<Vec<ConvertedClass>, BlockImportError>)
        ensures
            check_against@.len() != declared_classes@.len() ==> r == Err::<Vec<ConvertedClass>, BlockImportError>(
                BlockImportError::ClassCount {
                    got: declared_classes@.len() as u64,
                    expected: check_against@.len() as u64,
                },
            ),
            check_against@.len() == declared_classes@.len() ==> {
                &&& r is Ok <==> forall|i: int|
                    0 <= i < declared_classes@.len() ==> #[trigger] class_verdict(
                        self.config,
                        declared_classes@[i],
                        check_against@,
                    ) is Ok
                &&& r matches Ok(v) ==> v@.len() == declared_classes@.len() && forall|i: int|
                    0 <= i < v@.len() ==> class_verdict(self.config, declared_classes@[i], check_against@)
                        == Ok::<ConvertedClass, BlockImportError>(#[trigger] v@[i])
                &&& r matches Err(e) ==> exists|i: int|
                    0 <= i < declared_classes@.len() && #[trigger] class_verdict(
                        self.config,
                        declared_classes@[i],
                        check_against@,
                    ) == Err::<ConvertedClass, BlockImportError>(e) && forall|j: int|
                        0 <= j < i ==> class_verdict(self.config, declared_classes@[j], check_against@) is Ok
            },
    {
        if check_against.len() != declared_classes.len() {
            return Err(
                BlockImportError::ClassCount {
                    got: declared_classes.len() as u64,
                    expected: check_against.len() as u64,
                },
            );
        }
        let mut out: Vec<ConvertedClass> = Vec::new();
        let mut i: usize = 0;
        while i < declared_classes.len()
            invariant
                i <= declared_classes@.len(),
                check_against@.len() == declared_classes@.len(),
                out@.len() == i,
                forall|j: int|
                    0 <= j < i ==> class_verdict(self.config, declared_classes@[j], check_against@)
                        == Ok::<ConvertedClass, BlockImportError>(#[trigger] out@[j]),
            decreases declared_classes@.len() - i,
        {
            match self.verify_compile_class(&declared_classes[i], check_against) {
                Ok(c) => {
                    out.push(c);
                },
                Err(e) => {
                    assert forall|j: int| 0 <= j < i implies class_verdict(
                        self.config,
                        declared_classes@[j],
                        check_against@,
                    ) is Ok by {
                        assert(class_verdict(self.config, declared_classes@[j], check_against@)
                            == Ok::<ConvertedClass, BlockImportError>(out@[j]));
                    }
                    return Err(e);
                },
            }
            i = i + 1;
        }
        assert forall|i: int| 0 <= i < declared_classes@.len() implies #[trigger] class_verdict(
            self.config,
            declared_classes@[i],
            check_against@,
        ) is Ok by {
            assert(class_verdict(self.config, declared_classes@[i], check_against@) == Ok::<ConvertedClass, BlockImportError>(out@[i]));
        }
        Ok(out)
    }

    /// Completes the application of the state diffs of the blocks `start..end` to the global
    /// trie: the root that the trie computed must be the state root in the header of block
    /// `end - 1`. An empty range asks for nothing; a missing header is an internal error.
    pub fn apply_to_global_trie(
        &self,
        start: u64,
        end: u64,
        computed_root: Felt,
        last_header: Option<&Header>,
    ) -> (r: Result<(), BlockImportError>)
        ensures
            state_root_contract(*self, start, end, computed_root, header_of(last_header), r),
    {
        if start >= end {
            return Ok(());
        }
        let header = match last_header {
            Some(h) => h,
            None => {
                return Err(BlockImportError::Internal("Block header cannot be found".to_string()));
            },
        };
        let expected = header.global_state_root;
        if !self.config.no_check && !expected.equals(&computed_root) {
            return Err(BlockImportError::GlobalStateRoot { got: computed_root, expected });
        }
        Ok(())
    }
}

/// After applying a non-empty range to the global trie succeeds with checks on, the root of
/// the trie is the one that the header of the range's last block states.
pub proof fn lemma_state_root_after_apply(
    importer: BlockImporter,
    start: u64,
    end: u64,
    computed_root: Felt,
    last_header: Header,
)
    requires
        start < end,
        !importer.config.no_check,
    ensures
        forall|r: Result<(), BlockImportError>|
            (#[trigger] state_root_contract(importer, start, end, computed_root, Some(last_header), r) && r is Ok)
                ==> computed_root.bytes@ == last_header.global_state_root.bytes@,
{
}

pub open spec fn header_of(h: Option<&Header>) -> Option<Header> {
    match h {
        Some(x) => Some(*x),
        None => None,
    }
}

/// The contract of [`BlockImporter::apply_to_global_trie`] on a result `r`.
pub open spec fn state_root_contract(
    importer: BlockImporter,
    start: u64,
    end: u64,
    computed_root: Felt,
    last_header: Option<Header>,
    r: Result<(), BlockImportError>,
) -> bool {
    &&& start >= end ==> r is Ok
    &&& start < end && last_header is None ==> (r matches Err(BlockImportError::Internal(_)))
    &&& start < end && last_header is Some ==> {
        let h = last_header->Some_0;
        &&& (!importer.config.no_check && computed_root.bytes@ != h.global_state_root.bytes@) ==> r
            == Err::<(), BlockImportError>(
            BlockImportError::GlobalStateRoot { got: computed_root, expected: h.global_state_root },
        )
        &&& (importer.config.no_check || computed_root.bytes@ == h.global_state_root.bytes@) ==> r is Ok
    }
}

} // verus!
