//! Decoding a code region with the `capstone` disassembler.
//!
//! The disassembler turns bytes into instruction records and knows the names
//! of registers and groups. What is done with them is decided here: each
//! record becomes a report, in the decoder's order, and the first id without
//! a name ends the run.

use vstd::prelude::*;
use capstone::arch::BuildsCapstone;
use crate::error::InspectError;
use crate::report::{
    build_report, report_from, report_views, InstructionRecord, InstructionReport, RecordView,
    ReportView,
};
use crate::text::{join_names, joined, list_separator, texts};

verus! {

/// The disassembler's handle, `capstone::Capstone`.
#[verifier::external_type_specification]
#[verifier::external_body]
pub struct ExCapstone(capstone::Capstone);

/// The instructions of one decoding run, `capstone::Instructions`.
#[verifier::external_type_specification]
#[verifier::external_body]
pub struct ExInstructions<'a>(capstone::Instructions<'a>);

/// One of those instructions, `capstone::Insn`.
#[verifier::external_type_specification]
#[verifier::external_body]
pub struct ExInsn<'a>(capstone::Insn<'a>);

/// The disassembler's error, `capstone::Error`.
#[verifier::external_type_specification]
#[verifier::external_body]
pub struct ExDecodeError(capstone::Error);

/// A disassembler for AArch64 code that reports the registers, groups and
/// operands of each instruction.
pub struct Decoder {
    handle: capstone::Capstone,
}

/// What `Capstone::disasm_all` of an AArch64 decoder with detail yields for
/// `code` placed at `address`, where it yields anything: the instructions in
/// the order of decoding, each as the record that is read from it, or `None`
/// where the decoder has no detail for it.
pub uninterp spec fn decoded_records(code: Seq<u8>, address: u64) -> Seq<Option<RecordView>>;

/// Length in bytes of every AArch64 instruction.
pub const INSTRUCTION_LEN: usize = 4;

/// The address of the instruction at `index`, counted from zero, in code
/// placed at `start`. Addresses wrap at the end of the address space.
pub open spec fn address_at(start: u64, index: int) -> u64 {
    ((start + INSTRUCTION_LEN * index) % 0x1_0000_0000_0000_0000) as u64
}

/// The bytes of the instruction at `index`, counted from zero.
pub open spec fn bytes_at(code: Seq<u8>, index: int) -> Seq<u8> {
    code.subrange(INSTRUCTION_LEN * index, INSTRUCTION_LEN * index + INSTRUCTION_LEN)
}

/// Decoding is a linear sweep: the instructions lie one after the other
/// from the start of the code, each four bytes long, and each record
/// carries the address and the bytes of its place.
pub open spec fn is_linear_sweep(
    records: Seq<Option<RecordView>>,
    code: Seq<u8>,
    address: u64,
) -> bool {
    &&& INSTRUCTION_LEN * records.len() <= code.len()
    &&& forall|k: int|
        0 <= k < records.len() ==> ((#[trigger] records[k]) matches Some(record) ==> {
            &&& record.address == address_at(address, k)
            &&& record.bytes == bytes_at(code, k)
        })
}

/// What the instructions of a decoding run hold: for each, in order, the
/// record that is read from it, or `None` where the decoder has no detail
/// for it.
pub uninterp spec fn held_records(instructions: &capstone::Instructions) -> Seq<Option<RecordView>>;

/// The name that `Capstone::reg_name` of an AArch64 decoder gives to a
/// register id, if it has one.
pub uninterp spec fn arm64_register_name(id: u16) -> Option<Seq<char>>;

/// The name that `Capstone::group_name` of an AArch64 decoder gives to a
/// group id, if it has one.
pub uninterp spec fn arm64_group_name(id: u8) -> Option<Seq<char>>;

/// Builds a `capstone::Capstone` for AArch64 in ARM mode with detail on.
/// Trusted; nothing is claimed of the outcome.
#[verifier::external_body]
fn open_arm64() -> (handle: Result<capstone::Capstone, capstone::Error>) {
    capstone::Capstone::new().arm64().mode(capstone::arch::arm64::ArchMode::Arm).detail(
        true,
    ).build()
}

/// Calls `Capstone::disasm_all`. Trusted: where the call succeeds, the
/// instructions hold the records that `decoded_records` names for this code
/// and address, and these are a linear sweep: the disassembler gives the
/// first instruction the given address, copies each instruction's bytes from
/// its place in the code and moves on by its size, which for AArch64 is
/// always four.
#[verifier::external_body]
fn decode<'a>(decoder: &'a Decoder, code: &[u8], address: u64) -> (instructions: Result<
    capstone::Instructions<'a>,
    capstone::Error,
>)
    ensures
        instructions matches Ok(list) ==> {
            &&& held_records(&list) == decoded_records(code@, address)
            &&& is_linear_sweep(held_records(&list), code@, address)
        },
{
    decoder.handle.disasm_all(code, address)
}

/// The number of instructions, `len` of the slice that `Instructions` is.
/// Trusted: it is the number of records held.
#[verifier::external_body]
fn instruction_count(instructions: &capstone::Instructions) -> (count: usize)
    ensures
        count == held_records(instructions).len(),
{
    instructions.len()
}

/// Reads the instruction at `index`: its address, its `Display` text, its
/// id and bytes, and from `Capstone::insn_detail` the ids of the registers
/// read and written and of the groups, and the `Debug` text of each operand.
/// Trusted: this is the record held at `index`, and the call fails exactly
/// where none is held.
#[verifier::external_body]
fn read_record(decoder: &Decoder, instructions: &capstone::Instructions, index: usize) -> (record:
    Result<InstructionRecord, capstone::Error>)
    requires
        index < held_records(instructions).len(),
    ensures
        match record {
            Ok(read) => held_records(instructions)[index as int] == Some(read@),
            Err(_) => held_records(instructions)[index as int] is None,
        },
{
    let insn = &instructions[index];
    let detail = decoder.handle.insn_detail(insn)?;
    Ok(InstructionRecord {
        address: insn.address(),
        text: insn.to_string(),
        id: insn.id().0,
        bytes: insn.bytes().to_vec(),
        regs_read: detail.regs_read().iter().map(|reg| reg.0).collect(),
        regs_written: detail.regs_write().iter().map(|reg| reg.0).collect(),
        groups: detail.groups().iter().map(|group| group.0).collect(),
        operands: detail.arch_detail().operands().iter().map(|op| format!("{:?}", op)).collect(),
    })
}

/// Calls `Capstone::reg_name`. Trusted: the result is the name that
/// `arm64_register_name` gives to the id.
#[verifier::external_body]
fn register_name_of(decoder: &Decoder, id: u16) -> (name: Option<String>)
    ensures
        match name {
            Some(text) => arm64_register_name(id) == Some(text@),
            None => arm64_register_name(id) is None,
        },
{
    decoder.handle.reg_name(capstone::RegId(id))
}

/// Calls `Capstone::group_name`. Trusted: the result is the name that
/// `arm64_group_name` gives to the id.
#[verifier::external_body]
fn group_name_of(decoder: &Decoder, id: u8) -> (name: Option<String>)
    ensures
        match name {
            Some(text) => arm64_group_name(id) == Some(text@),
            None => arm64_group_name(id) is None,
        },
{
    decoder.handle.group_name(capstone::InsnGroupId(id))
}

/// The text of each name of a list, `None` where a name is missing.
pub open spec fn optional_texts(names: Seq<Option<String>>) -> Seq<Option<Seq<char>>> {
    names.map_values(
        |name: Option<String>|
            match name {
                Some(text) => Some(text@),
                None => None,
            },
    )
}

/// Whether every name of a list is there.
pub open spec fn all_resolved(names: Seq<Option<Seq<char>>>) -> bool {
    forall|i: int| 0 <= i < names.len() ==> names[i] is Some
}

/// The names of a list in which every name is there.
pub open spec fn resolved(names: Seq<Option<Seq<char>>>) -> Seq<Seq<char>> {
    names.map_values(|name: Option<Seq<char>>| name->0)
}

/// The names of a list joined with a comma and a space, in the order of the
/// list; a failure where a name is missing.
pub open spec fn name_list(names: Seq<Option<Seq<char>>>) -> Result<Seq<char>, InspectError> {
    if all_resolved(names) {
        Ok(joined(resolved(names), list_separator()))
    } else {
        Err(InspectError::NameResolutionFailure)
    }
}

/// The names of some register ids, in the same order.
pub open spec fn register_names(ids: Seq<u16>) -> Seq<Option<Seq<char>>> {
    ids.map_values(|id: u16| arm64_register_name(id))
}

/// The names of some group ids, in the same order.
pub open spec fn group_names_of(ids: Seq<u8>) -> Seq<Option<Seq<char>>> {
    ids.map_values(|id: u8| arm64_group_name(id))
}

/// The report on one instruction: a failure where the decoder has no detail
/// for it or no name for one of its ids, registers read first, then
/// registers written, then groups.
pub open spec fn report_of(record: Option<RecordView>) -> Result<ReportView, InspectError> {
    match record {
        None => Err(InspectError::DetailUnavailable),
        Some(r) => match name_list(register_names(r.regs_read)) {
            Err(e) => Err(e),
            Ok(read) => match name_list(register_names(r.regs_written)) {
                Err(e) => Err(e),
                Ok(written) => match name_list(group_names_of(r.groups)) {
                    Err(e) => Err(e),
                    Ok(groups) => Ok(report_from(r, read, written, groups)),
                },
            },
        },
    }
}

/// The reports on a list of instructions, in the same order; the failure of
/// the first instruction that has one.
pub open spec fn reports_of(records: Seq<Option<RecordView>>) -> Result<
    Seq<ReportView>,
    InspectError,
>
    decreases records.len(),
{
    if records.len() == 0 {
        Ok(Seq::empty())
    } else {
        match reports_of(records.drop_last()) {
            Err(e) => Err(e),
            Ok(reports) => match report_of(records.last()) {
                Err(e) => Err(e),
                Ok(report) => Ok(reports.push(report)),
            },
        }
    }
}

/// A failure among the first instructions is the failure of the whole list.
pub proof fn lemma_failure_is_final(records: Seq<Option<RecordView>>, n: int)
    requires
        0 <= n <= records.len(),
        reports_of(records.take(n)) is Err,
    ensures
        reports_of(records) == reports_of(records.take(n)),
    decreases records.len() - n,
{
    if n < records.len() {
        let longer = records.take(n + 1);
        assert(longer.drop_last() =~= records.take(n));
        lemma_failure_is_final(records, n + 1);
    } else {
        assert(records.take(n) =~= records);
    }
}

/// Reports follow the decoder: where a list of instructions has reports,
/// there is exactly one for each instruction, in the decoder's order, and it
/// carries the instruction's address, text, id, bytes and operands unchanged.
pub proof fn lemma_reports_follow_records(records: Seq<Option<RecordView>>)
    requires
        reports_of(records) is Ok,
    ensures
        reports_of(records)->Ok_0.len() == records.len(),
        forall|i: int|
            0 <= i < records.len() ==> {
                &&& (#[trigger] records[i]) is Some
                &&& report_of(records[i]) == Ok::<ReportView, InspectError>(
                    reports_of(records)->Ok_0[i],
                )
                &&& reports_of(records)->Ok_0[i].address == records[i]->0.address
                &&& reports_of(records)->Ok_0[i].text == records[i]->0.text
                &&& reports_of(records)->Ok_0[i].id == records[i]->0.id
                &&& reports_of(records)->Ok_0[i].bytes == records[i]->0.bytes
                &&& reports_of(records)->Ok_0[i].operands == records[i]->0.operands
            },
    decreases records.len(),
{
    if records.len() > 0 {
        lemma_reports_follow_records(records.drop_last());
        assert forall|i: int| 0 <= i < records.len() implies {
            &&& (#[trigger] records[i]) is Some
            &&& report_of(records[i]) == Ok::<ReportView, InspectError>(
                reports_of(records)->Ok_0[i],
            )
            &&& reports_of(records)->Ok_0[i].address == records[i]->0.address
            &&& reports_of(records)->Ok_0[i].text == records[i]->0.text
            &&& reports_of(records)->Ok_0[i].id == records[i]->0.id
            &&& reports_of(records)->Ok_0[i].bytes == records[i]->0.bytes
            &&& reports_of(records)->Ok_0[i].operands == records[i]->0.operands
        } by {
            if i < records.len() - 1 {
                assert(records.drop_last()[i] == records[i]);
            }
        }
    }
}

/// Whether the decoder has detail for an instruction and a name for each of
/// its register and group ids.
pub open spec fn fully_named(record: Option<RecordView>) -> bool {
    &&& record is Some
    &&& all_resolved(register_names(record->0.regs_read))
    &&& all_resolved(register_names(record->0.regs_written))
    &&& all_resolved(group_names_of(record->0.groups))
}

/// Success is owed where the decoder knows its own ids: a list of
/// instructions has reports exactly if the decoder has detail for each of
/// them and a name for each id, however many instructions there are and
/// whatever bytes follow the last of them.
pub proof fn lemma_reports_exist_iff_named(records: Seq<Option<RecordView>>)
    ensures
        reports_of(records) is Ok <==> forall|i: int|
            0 <= i < records.len() ==> fully_named(#[trigger] records[i]),
    decreases records.len(),
{
    if records.len() > 0 {
        let shorter = records.drop_last();
        lemma_reports_exist_iff_named(shorter);
        if reports_of(records) is Ok {
            assert forall|i: int| 0 <= i < records.len() implies fully_named(
                #[trigger] records[i],
            ) by {
                if i < records.len() - 1 {
                    assert(shorter[i] == records[i]);
                }
            }
        }
        if forall|i: int| 0 <= i < records.len() ==> fully_named(#[trigger] records[i]) {
            assert forall|i: int| 0 <= i < shorter.len() implies fully_named(
                #[trigger] shorter[i],
            ) by {
                assert(shorter[i] == records[i]);
            }
            assert(fully_named(records[records.len() - 1]));
        }
    }
}

/// Whether the reports lie one after the other from the start of the code:
/// the report at `k` carries the address and the bytes of the instruction at
/// `k`.
pub open spec fn reports_follow_code(reports: Seq<ReportView>, code: Seq<u8>, address: u64) -> bool {
    &&& INSTRUCTION_LEN * reports.len() <= code.len()
    &&& forall|k: int|
        0 <= k < reports.len() ==> {
            &&& (#[trigger] reports[k]).address == address_at(address, k)
            &&& reports[k].bytes == bytes_at(code, k)
        }
}

/// The reports on a linear sweep follow the code: one for each instruction
/// decoded, none for the bytes after the last of them.
pub proof fn lemma_reports_follow_code(
    records: Seq<Option<RecordView>>,
    code: Seq<u8>,
    address: u64,
)
    requires
        is_linear_sweep(records, code, address),
        reports_of(records) is Ok,
    ensures
        reports_of(records)->Ok_0.len() == records.len(),
        reports_follow_code(reports_of(records)->Ok_0, code, address),
{
    lemma_reports_follow_records(records);
    let reports = reports_of(records)->Ok_0;
    assert forall|k: int| 0 <= k < reports.len() implies {
        &&& (#[trigger] reports[k]).address == address_at(address, k)
        &&& reports[k].bytes == bytes_at(code, k)
    } by {
        assert(records[k] is Some);
    }
}

/// Reports come in ascending address order, four bytes apart, as long as the
/// code does not reach past the end of the address space.
pub proof fn lemma_addresses_ascend(reports: Seq<ReportView>, code: Seq<u8>, address: u64)
    requires
        reports_follow_code(reports, code, address),
        address + code.len() <= 0x1_0000_0000_0000_0000,
    ensures
        forall|k: int|
            0 <= k < reports.len() ==> (#[trigger] reports[k]).address == address
                + INSTRUCTION_LEN * k,
        forall|i: int, j: int|
            0 <= i < j < reports.len() ==> (#[trigger] reports[i]).address < (
            #[trigger] reports[j]).address,
{
    assert forall|k: int| 0 <= k < reports.len() implies (#[trigger] reports[k]).address == address
        + INSTRUCTION_LEN * k by {
        assert(reports[k].address == address_at(address, k));
        assert(address + INSTRUCTION_LEN * k < 0x1_0000_0000_0000_0000);
    }
}

/// An empty code region has no instructions: a linear sweep of it yields no
/// record, and so no report, and that is no failure.
pub proof fn lemma_empty_code_has_no_reports(records: Seq<Option<RecordView>>, address: u64)
    requires
        is_linear_sweep(records, Seq::empty(), address),
    ensures
        reports_of(records) == Ok::<Seq<ReportView>, InspectError>(Seq::empty()),
{
    assert(records.len() == 0);
}

/// Joins the names of a list with a comma and a space; fails where a name is
/// missing.
pub fn join_resolved(names: &Vec<Option<String>>) -> (text: Result<String, InspectError>)
    ensures
        match text {
            Ok(line) => name_list(optional_texts(names@)) == Ok::<Seq<char>, InspectError>(line@),
            Err(e) => name_list(optional_texts(names@)) == Err::<Seq<char>, InspectError>(e),
        },
{
    let mut found: Vec<String> = Vec::new();
    let mut i: usize = 0;
    while i < names.len()
        invariant
            i <= names.len(),
            found@.len() == i,
            forall|j: int| 0 <= j < i ==> optional_texts(names@)[j] == Some(found@[j]@),
        decreases names.len() - i,
    {
        match &names[i] {
            Some(name) => {
                found.push(name.clone());
            },
            None => {
                assert(optional_texts(names@)[i as int] is None);
                return Err(InspectError::NameResolutionFailure);
            },
        }
        i += 1;
    }
    assert(all_resolved(optional_texts(names@)));
    assert(texts(found@) =~= resolved(optional_texts(names@)));
    Ok(join_names(&found))
}

impl Decoder {
    /// A decoder for AArch64 code, with detail on.
    pub fn new() -> (decoder: Result<Decoder, InspectError>)
        ensures
            decoder matches Err(e) ==> e == InspectError::DecoderInitFailure,
    {
        Decoder::from_opened(open_arm64())
    }

    /// What an attempt to open the disassembler makes: a decoder that holds
    /// the handle where the attempt gave one, `DecoderInitFailure` where it
    /// failed. Only `new` makes the attempt, so that every decoder is one for
    /// AArch64.
    fn from_opened(opened: Result<capstone::Capstone, capstone::Error>) -> (decoder: Result<
        Decoder,
        InspectError,
    >)
        ensures
            match opened {
                Ok(handle) => decoder matches Ok(made) && made.handle == handle,
                Err(_) => decoder == Err::<Decoder, InspectError>(
                    InspectError::DecoderInitFailure,
                ),
            },
    {
        match opened {
            Ok(handle) => Ok(Decoder { handle }),
            Err(_) => Err(InspectError::DecoderInitFailure),
        }
    }
}

/// The names of the registers with the given ids, joined with a comma and a
/// space, in the order of the ids.
pub fn reg_names(decoder: &Decoder, regs: &[u16]) -> (names: Result<String, InspectError>)
    ensures
        match names {
            Ok(line) => name_list(register_names(regs@)) == Ok::<Seq<char>, InspectError>(line@),
            Err(e) => name_list(register_names(regs@)) == Err::<Seq<char>, InspectError>(e),
        },
{
    let mut found: Vec<Option<String>> = Vec::new();
    let mut i: usize = 0;
    while i < regs.len()
        invariant
            i <= regs.len(),
            optional_texts(found@) == register_names(regs@).take(i as int),
        decreases regs.len() - i,
    {
        let ghost before = optional_texts(found@);
        let name = register_name_of(decoder, regs[i]);
        found.push(name);
        assert(optional_texts(found@) =~= before.push(arm64_register_name(regs@[i as int])));
        assert(optional_texts(found@) =~= register_names(regs@).take(i + 1));
        i += 1;
    }
    assert(register_names(regs@).take(regs.len() as int) =~= register_names(regs@));
    join_resolved(&found)
}

/// The names of the groups with the given ids, joined with a comma and a
/// space, in the order of the ids.
pub fn group_names(decoder: &Decoder, groups: &[u8]) -> (names: Result<String, InspectError>)
    ensures
        match names {
            Ok(line) => name_list(group_names_of(groups@)) == Ok::<Seq<char>, InspectError>(line@),
            Err(e) => name_list(group_names_of(groups@)) == Err::<Seq<char>, InspectError>(e),
        },
{
    let mut found: Vec<Option<String>> = Vec::new();
    let mut i: usize = 0;
    while i < groups.len()
        invariant
            i <= groups.len(),
            optional_texts(found@) == group_names_of(groups@).take(i as int),
        decreases groups.len() - i,
    {
        let ghost before = optional_texts(found@);
        let name = group_name_of(decoder, groups[i]);
        found.push(name);
        assert(optional_texts(found@) =~= before.push(arm64_group_name(groups@[i as int])));
        assert(optional_texts(found@) =~= group_names_of(groups@).take(i + 1));
        i += 1;
    }
    assert(group_names_of(groups@).take(groups.len() as int) =~= group_names_of(groups@));
    join_resolved(&found)
}

/// Makes the report on one instruction: resolves the registers read, then
/// the registers written, then the groups; the first list with an id that
/// has no name ends it.
pub fn report_on(decoder: &Decoder, record: InstructionRecord) -> (report: Result<
    InstructionReport,
    InspectError,
>)
    ensures
        match report {
            Ok(made) => report_of(Some(record@)) == Ok::<ReportView, InspectError>(made@),
            Err(e) => report_of(Some(record@)) == Err::<ReportView, InspectError>(e),
        },
{
    let read = match reg_names(decoder, record.regs_read.as_slice()) {
        Ok(line) => line,
        Err(e) => {
            return Err(e);
        },
    };
    let written = match reg_names(decoder, record.regs_written.as_slice()) {
        Ok(line) => line,
        Err(e) => {
            return Err(e);
        },
    };
    let groups = match group_names(decoder, record.groups.as_slice()) {
        Ok(line) => line,
        Err(e) => {
            return Err(e);
        },
    };
    Ok(build_report(record, read, written, groups))
}

/// Reports on every instruction of a decoding run, in the decoder's order:
/// reads each record and resolves its ids, and ends at the first instruction
/// without detail or with an id that has no name.
fn reports_for(decoder: &Decoder, instructions: &capstone::Instructions) -> (reports: Result<
    Vec<InstructionReport>,
    InspectError,
>)
    ensures
        match reports {
            Ok(list) => reports_of(held_records(instructions)) == Ok::<
                Seq<ReportView>,
                InspectError,
            >(report_views(list@)),
            Err(e) => reports_of(held_records(instructions)) == Err::<
                Seq<ReportView>,
                InspectError,
            >(e),
        },
{
    let ghost records = held_records(instructions);
    let count = instruction_count(instructions);
    let mut reports: Vec<InstructionReport> = Vec::new();
    let mut i: usize = 0;
    assert(records.take(0) =~= Seq::empty());
    assert(report_views(reports@) =~= Seq::empty());
    while i < count
        invariant
            i <= count,
            count == records.len(),
            records == held_records(instructions),
            reports@.len() == i,
            reports_of(records.take(i as int)) == Ok::<Seq<ReportView>, InspectError>(
                report_views(reports@),
            ),
        decreases count - i,
    {
        let ghost done = report_views(reports@);
        let ghost longer = records.take(i + 1);
        proof {
            assert(longer.drop_last() =~= records.take(i as int));
            assert(longer.last() == records[i as int]);
        }
        let record = match read_record(decoder, instructions, i) {
            Ok(read) => read,
            Err(_) => {
                proof {
                    assert(reports_of(longer) == Err::<Seq<ReportView>, InspectError>(
                        InspectError::DetailUnavailable,
                    ));
                    lemma_failure_is_final(records, i + 1);
                }
                return Err(InspectError::DetailUnavailable);
            },
        };
        match report_on(decoder, record) {
            Ok(report) => {
                reports.push(report);
                assert(report_views(reports@) =~= done.push(reports@[i as int]@));
                assert(reports_of(longer) == Ok::<Seq<ReportView>, InspectError>(
                    report_views(reports@),
                ));
            },
            Err(e) => {
                proof {
                    assert(reports_of(longer) == Err::<Seq<ReportView>, InspectError>(e));
                    lemma_failure_is_final(records, i + 1);
                }
                return Err(e);
            },
        }
        i += 1;
    }
    assert(records.take(count as int) =~= records);
    Ok(reports)
}

/// Decodes `code`, placed at `address`, and reports on every instruction
/// that the decoder yields, in its order. Bytes that the decoder cannot read
/// as an instruction end the decoding and are no failure.
///
/// Fails with `DecodeFailure` where the decoder gives up on the run as a
/// whole, and otherwise with the failure of the first instruction that has
/// one.
pub fn disassemble(decoder: &Decoder, code: &[u8], address: u64) -> (reports: Result<
    Vec<InstructionReport>,
    InspectError,
>)
    ensures
        match reports {
            Ok(list) => reports_of(decoded_records(code@, address)) == Ok::<
                Seq<ReportView>,
                InspectError,
            >(report_views(list@)),
            Err(e) => e == InspectError::DecodeFailure || reports_of(
                decoded_records(code@, address),
            ) == Err::<Seq<ReportView>, InspectError>(e),
        },
        reports matches Ok(list) ==> reports_follow_code(report_views(list@), code@, address),
{
    let instructions = match decode(decoder, code, address) {
        Ok(list) => list,
        Err(_) => {
            return Err(InspectError::DecodeFailure);
        },
    };
    let reports = reports_for(decoder, &instructions);
    proof {
        if reports is Ok {
            lemma_reports_follow_code(held_records(&instructions), code@, address);
        }
    }
    reports
}

} // verus!
