//! Instruction records, the reports made of them, and their text.
//!
//! A record is what the decoder yields for one instruction, with registers
//! and groups as numeric ids. A report is the record with the ids resolved to
//! names. The text of a report is a block of lines in a fixed order.

use vstd::prelude::*;
use vstd::string::*;
use crate::text::{byte_list, byte_list_text, decimal, decimal_digits, texts};

verus! {

/// One decoded instruction, as the decoder describes it.
#[derive(Debug)]
pub struct InstructionRecord {
    /// Address of the instruction's first byte.
    pub address: u64,
    /// Address, mnemonic and operands in the decoder's own rendering.
    pub text: String,
    /// The decoder's numeric id of the instruction.
    pub id: u32,
    /// The bytes that encode the instruction.
    pub bytes: Vec<u8>,
    /// Ids of the registers read, in the decoder's order.
    pub regs_read: Vec<u16>,
    /// Ids of the registers written, in the decoder's order.
    pub regs_written: Vec<u16>,
    /// Ids of the groups that the instruction belongs to, in the decoder's order.
    pub groups: Vec<u8>,
    /// Each operand in its structured form, in operand order.
    pub operands: Vec<String>,
}

/// What a record is, as plain values.
pub ghost struct RecordView {
    pub address: u64,
    pub text: Seq<char>,
    pub id: u32,
    pub bytes: Seq<u8>,
    pub regs_read: Seq<u16>,
    pub regs_written: Seq<u16>,
    pub groups: Seq<u8>,
    pub operands: Seq<Seq<char>>,
}

impl View for InstructionRecord {
    type V = RecordView;

    open spec fn view(&self) -> RecordView {
        RecordView {
            address: self.address,
            text: self.text@,
            id: self.id,
            bytes: self.bytes@,
            regs_read: self.regs_read@,
            regs_written: self.regs_written@,
            groups: self.groups@,
            operands: texts(self.operands@),
        }
    }
}

/// The report on one instruction: the record with register and group ids
/// replaced by their names, each list joined with a comma and a space.
#[derive(Debug)]
pub struct InstructionReport {
    pub address: u64,
    pub text: String,
    pub id: u32,
    pub bytes: Vec<u8>,
    pub read_regs: String,
    pub write_regs: String,
    pub groups: String,
    pub operands: Vec<String>,
}

/// What a report is, as plain values.
pub ghost struct ReportView {
    pub address: u64,
    pub text: Seq<char>,
    pub id: u32,
    pub bytes: Seq<u8>,
    pub read_regs: Seq<char>,
    pub write_regs: Seq<char>,
    pub groups: Seq<char>,
    pub operands: Seq<Seq<char>>,
}

impl View for InstructionReport {
    type V = ReportView;

    open spec fn view(&self) -> ReportView {
        ReportView {
            address: self.address,
            text: self.text@,
            id: self.id,
            bytes: self.bytes@,
            read_regs: self.read_regs@,
            write_regs: self.write_regs@,
            groups: self.groups@,
            operands: texts(self.operands@),
        }
    }
}

/// The views of a list of reports.
pub open spec fn report_views(reports: Seq<InstructionReport>) -> Seq<ReportView> {
    reports.map_values(|r: InstructionReport| r@)
}

/// The report that a record and the three joined name lists make.
pub open spec fn report_from(
    record: RecordView,
    read_regs: Seq<char>,
    write_regs: Seq<char>,
    groups: Seq<char>,
) -> ReportView {
    ReportView {
        address: record.address,
        text: record.text,
        id: record.id,
        bytes: record.bytes,
        read_regs,
        write_regs,
        groups,
        operands: record.operands,
    }
}

/// Makes the report of a record from the names of its registers and groups.
pub fn build_report(
    record: InstructionRecord,
    read_regs: String,
    write_regs: String,
    groups: String,
) -> (report: InstructionReport)
    ensures
        report@ == report_from(record@, read_regs@, write_regs@, groups@),
{
    InstructionReport {
        address: record.address,
        text: record.text,
        id: record.id,
        bytes: record.bytes,
        read_regs,
        write_regs,
        groups,
        operands: record.operands,
    }
}

/// Label of the line that gives the instruction id.
pub const ID_LABEL: &'static str = "    insn id:     ";

/// Label of the line that gives the instruction's bytes.
pub const BYTES_LABEL: &'static str = "    bytes:       ";

/// Label of the line that names the registers read.
pub const READ_LABEL: &'static str = "    read regs:   ";

/// Label of the line that names the registers written.
pub const WRITE_LABEL: &'static str = "    write regs:  ";

/// Label of the line that names the instruction's groups.
pub const GROUPS_LABEL: &'static str = "    insn groups: ";

/// Label of the line that gives the number of operands.
pub const OPERANDS_LABEL: &'static str = "    operands: ";

/// What stands before each operand on its line.
pub const OPERAND_INDENT: &'static str = "        ";

/// The lines of an operand list: each operand behind the indent.
pub open spec fn operand_lines(operands: Seq<Seq<char>>) -> Seq<Seq<char>> {
    operands.map_values(|operand: Seq<char>| OPERAND_INDENT@ + operand)
}

/// The lines before the operands: an empty line, the instruction's text, its
/// id, its bytes, the registers read, the registers written, the groups and
/// the number of operands.
pub open spec fn head_lines(report: ReportView) -> Seq<Seq<char>> {
    seq![
        Seq::empty(),
        report.text,
        ID_LABEL@ + decimal_digits(report.id as nat),
        BYTES_LABEL@ + byte_list_text(report.bytes),
        READ_LABEL@ + report.read_regs,
        WRITE_LABEL@ + report.write_regs,
        GROUPS_LABEL@ + report.groups,
        OPERANDS_LABEL@ + decimal_digits(report.operands.len()),
    ]
}

/// The lines of a report, in the order in which they are printed.
pub open spec fn lines_of(report: ReportView) -> Seq<Seq<char>> {
    head_lines(report) + operand_lines(report.operands)
}

/// The text of some lines: each followed by a line feed.
pub open spec fn lines_text(lines: Seq<Seq<char>>) -> Seq<char>
    decreases lines.len(),
{
    if lines.len() == 0 {
        Seq::empty()
    } else {
        lines_text(lines.drop_last()) + lines.last() + seq!['\n']
    }
}

/// The text of a list of reports: the lines of each, in order.
pub open spec fn rendered(reports: Seq<ReportView>) -> Seq<char>
    decreases reports.len(),
{
    if reports.len() == 0 {
        Seq::empty()
    } else {
        rendered(reports.drop_last()) + lines_text(lines_of(reports.last()))
    }
}

/// A report always has its eight head lines, and one line more for each
/// operand.
pub proof fn lemma_line_count(report: ReportView)
    ensures
        lines_of(report).len() == 8 + report.operands.len(),
{
}

fn labelled(label: &str, value: &str) -> (line: String)
    ensures
        line@ == label@ + value@,
{
    let mut line = String::new();
    line.append(label);
    line.append(value);
    assert(line@ =~= label@ + value@);
    line
}

/// Writes the lines of a report, in the order in which they are printed.
pub fn report_lines(report: &InstructionReport) -> (lines: Vec<String>)
    ensures
        texts(lines@) == lines_of(report@),
{
    let mut lines: Vec<String> = Vec::new();
    lines.push(String::new());
    lines.push(report.text.clone());
    lines.push(labelled(ID_LABEL, decimal(report.id as u64).as_str()));
    lines.push(labelled(BYTES_LABEL, byte_list(report.bytes.as_slice()).as_str()));
    lines.push(labelled(READ_LABEL, report.read_regs.as_str()));
    lines.push(labelled(WRITE_LABEL, report.write_regs.as_str()));
    lines.push(labelled(GROUPS_LABEL, report.groups.as_str()));
    lines.push(labelled(OPERANDS_LABEL, decimal(report.operands.len() as u64).as_str()));
    assert(texts(lines@) =~= head_lines(report@));
    let mut i: usize = 0;
    while i < report.operands.len()
        invariant
            i <= report.operands.len(),
            texts(lines@) == head_lines(report@) + operand_lines(report@.operands).take(i as int),
        decreases report.operands.len() - i,
    {
        let ghost before = texts(lines@);
        lines.push(labelled(OPERAND_INDENT, report.operands[i].as_str()));
        assert(texts(lines@) =~= before.push(OPERAND_INDENT@ + report.operands@[i as int]@));
        assert(texts(lines@) =~= head_lines(report@) + operand_lines(report@.operands).take(
            i + 1,
        ));
        i += 1;
    }
    assert(operand_lines(report@.operands).take(report.operands.len() as int)
        =~= operand_lines(report@.operands));
    lines
}

/// Writes the text of a list of reports: every line of every report, each
/// followed by a line feed.
pub fn render(reports: &Vec<InstructionReport>) -> (text: String)
    ensures
        text@ == rendered(report_views(reports@)),
{
    let mut text = String::new();
    let mut i: usize = 0;
    while i < reports.len()
        invariant
            i <= reports.len(),
            text@ == rendered(report_views(reports@).take(i as int)),
        decreases reports.len() - i,
    {
        let lines = report_lines(&reports[i]);
        let ghost before = text@;
        let mut j: usize = 0;
        while j < lines.len()
            invariant
                j <= lines.len(),
                text@ == before + lines_text(texts(lines@).take(j as int)),
            decreases lines.len() - j,
        {
            proof {
                reveal_strlit("\n");
                let done = texts(lines@).take(j as int);
                let longer = texts(lines@).take(j + 1);
                assert(longer.drop_last() =~= done);
                assert(longer.last() == lines@[j as int]@);
            }
            text.append(lines[j].as_str());
            text.append("\n");
            assert(text@ =~= before + lines_text(texts(lines@).take(j + 1)));
            j += 1;
        }
        proof {
            assert(texts(lines@).take(lines.len() as int) =~= texts(lines@));
            let done = report_views(reports@).take(i as int);
            let longer = report_views(reports@).take(i + 1);
            assert(longer.drop_last() =~= done);
            assert(longer.last() == reports@[i as int]@);
        }
        i += 1;
    }
    assert(report_views(reports@).take(reports.len() as int) =~= report_views(reports@));
    text
}

} // verus!
