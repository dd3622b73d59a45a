//! The plain-text answer of the older question endpoint: the structured answer with its
//! evidence written out as numbered references.
use crate::text::{append_chars, decimal, decimal_chars, from_chars, join, join_chars, to_chars};
use vstd::prelude::*;

verus! {

/// How a question was answered.
#[derive(Debug, Clone, Copy, PartialEq, Eq, Structural)]
pub enum AskStatus {
    Answered,
    InsufficientEvidence,
    ModelFailedWithEvidence,
}

/// A piece of evidence behind an answer.
#[derive(Debug)]
pub struct EvidenceItem {
    pub reason: String,
    pub document_rank: usize,
    pub chunk_rank: usize,
    pub file_path: String,
    pub chunk_index: usize,
    pub content: String,
}

/// A source cited by an answer, by its number in the answer.
#[derive(Debug)]
pub struct CitationItem {
    pub index: usize,
    pub file_path: String,
    pub chunk_index: usize,
}

/// A structured answer: its status, its text, its citations and its evidence.
#[derive(Debug)]
pub struct AskResponseStructured {
    pub status: AskStatus,
    pub answer: String,
    pub citations: Vec<CitationItem>,
    pub evidence: Vec<EvidenceItem>,
}

pub open spec fn separator_line() -> Seq<char> {
    "------------------------------------------------------------"@
}

/// The lines that present evidence number `n` (counting from 1).
pub open spec fn evidence_lines(n: nat, e: EvidenceItem) -> Seq<Seq<char>> {
    seq![
        "#"@ + decimal(n) + "  命中原因: "@ + e.reason@ + "  文档排序: #"@ + decimal(e.document_rank as nat)
            + "  片段排序: #"@ + decimal(e.chunk_rank as nat),
        "来源: "@ + e.file_path@,
        "块序号: "@ + decimal(e.chunk_index as nat),
        e.content@,
        separator_line(),
    ]
}

pub open spec fn reference_lines(evidence: Seq<EvidenceItem>) -> Seq<Seq<char>>
    decreases evidence.len(),
{
    if evidence.len() == 0 {
        Seq::empty()
    } else {
        reference_lines(evidence.drop_last()) + evidence_lines(evidence.len(), evidence.last())
    }
}

/// The references: the lines of all the evidence, one per line.
pub open spec fn legacy_references(evidence: Seq<EvidenceItem>) -> Seq<char> {
    join(reference_lines(evidence), "\n"@)
}

/// The text answer: the answer followed by its references when it was answered; a notice
/// when the evidence did not suffice; the references alone when the model failed.
pub open spec fn legacy_answer(r: AskResponseStructured) -> Seq<char> {
    let refs = legacy_references(r.evidence@);
    match r.status {
        AskStatus::Answered => if refs.len() == 0 {
            r.answer@
        } else {
            r.answer@ + "\n\n---\n参考来源：\n"@ + refs
        },
        AskStatus::InsufficientEvidence => "证据不足，当前无法可靠回答这个问题。"@,
        AskStatus::ModelFailedWithEvidence => if refs.len() == 0 {
            "本地大模型答案生成失败，且没有可展示的证据片段。"@
        } else {
            "本地大模型答案生成失败，以下是检索到的相关片段：\n\n"@ + refs
        },
    }
}

fn number_chars(n: usize) -> (r: Vec<char>)
    ensures
        r@ == decimal(n as nat),
{
    decimal_chars(n as u64)
}

pub fn format_legacy_references(response: &AskResponseStructured) -> (r: String)
    ensures
        r@ == legacy_references(response.evidence@),
{
    let evidence = &response.evidence;
    let mut lines: Vec<Vec<char>> = Vec::new();
    let mut k: usize = 0;
    while k < evidence.len()
        invariant
            k <= evidence.len(),
            evidence == &response.evidence,
            lines@.map_values(|p: Vec<char>| p@) == reference_lines(evidence@.take(k as int)),
        decreases evidence.len() - k,
    {
        let e = &evidence[k];
        let mut head = to_chars("#");
        append_chars(&mut head, &number_chars(k + 1));
        append_chars(&mut head, &to_chars("  命中原因: "));
        append_chars(&mut head, &to_chars(e.reason.as_str()));
        append_chars(&mut head, &to_chars("  文档排序: #"));
        append_chars(&mut head, &number_chars(e.document_rank));
        append_chars(&mut head, &to_chars("  片段排序: #"));
        append_chars(&mut head, &number_chars(e.chunk_rank));
        let mut source = to_chars("来源: ");
        append_chars(&mut source, &to_chars(e.file_path.as_str()));
        let mut index = to_chars("块序号: ");
        append_chars(&mut index, &number_chars(e.chunk_index));
        let ghost before = lines@.map_values(|p: Vec<char>| p@);
        lines.push(head);
        lines.push(source);
        lines.push(index);
        lines.push(to_chars(e.content.as_str()));
        lines.push(to_chars("------------------------------------------------------------"));
        proof {
            assert(evidence@.take(k + 1).drop_last() =~= evidence@.take(k as int));
            assert(evidence@.take(k + 1).last() == evidence@[k as int]);
            assert(lines@.map_values(|p: Vec<char>| p@) =~= before + evidence_lines((k + 1) as nat, evidence@[k as int]));
        }
        k += 1;
    }
    assert(evidence@.take(k as int) =~= evidence@);
    from_chars(&join_chars(&lines, &to_chars("\n")))
}

pub fn format_legacy_answer(response: &AskResponseStructured) -> (r: String)
    ensures
        r@ == legacy_answer(*response),
{
    match response.status {
        AskStatus::Answered => {
            let references = to_chars(format_legacy_references(response).as_str());
            if references.len() == 0 {
                from_chars(&to_chars(response.answer.as_str()))
            } else {
                let mut out = to_chars(response.answer.as_str());
                append_chars(&mut out, &to_chars("\n\n---\n参考来源：\n"));
                append_chars(&mut out, &references);
                from_chars(&out)
            }
        },
        AskStatus::InsufficientEvidence => from_chars(&to_chars("证据不足，当前无法可靠回答这个问题。")),
        AskStatus::ModelFailedWithEvidence => {
            let references = to_chars(format_legacy_references(response).as_str());
            if references.len() == 0 {
                from_chars(&to_chars("本地大模型答案生成失败，且没有可展示的证据片段。"))
            } else {
                let mut out = to_chars("本地大模型答案生成失败，以下是检索到的相关片段：\n\n");
                append_chars(&mut out, &references);
                from_chars(&out)
            }
        },
    }
}

} // verus!
