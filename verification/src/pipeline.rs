//! The aggregation-pipeline builder: translates an ordered list of
//! typed stages into the ordered list of raw stage documents the
//! backing store executes. Translation is independent per stage — no
//! look-ahead or look-behind — and the output order matches the input
//! order exactly.

use crate::document::{doc_has_key, Document, Value};
use crate::types::{LookupStage, PipelineStage};
use vstd::prelude::*;

verus! {

/// The raw key under which each stage kind is submitted.
pub open spec fn spec_stage_key(stage: PipelineStage) -> Seq<char> {
    match stage {
        PipelineStage::Match(_) => "$match"@,
        PipelineStage::Lookup(_) => "$lookup"@,
        PipelineStage::Unwind(_) => "$unwind"@,
        PipelineStage::Project(_) => "$project"@,
        PipelineStage::AddFields(_) => "$addFields"@,
        PipelineStage::Limit(_) => "$limit"@,
        PipelineStage::Sort(_) => "$sort"@,
    }
}

/// What it means for `d` to be the raw document of `stage`.
pub open spec fn is_stage_doc(stage: PipelineStage, d: Seq<(Seq<char>, Value)>) -> bool {
    match stage {
        PipelineStage::Match(f) => d.len() == 1 && d[0].0 == "$match"@ && d[0].1 == Value::Doc(f),
        PipelineStage::Lookup(l) => d.len() == 1 && d[0].0 == "$lookup"@ && d[0].1 is Doc && {
            let b = d[0].1->Doc_0@;
            &&& b.len() == 4
            &&& b[0].0 == "from"@ && b[0].1 == Value::Str(l.from)
            &&& b[1].0 == "localField"@ && b[1].1 == Value::Str(l.local_field)
            &&& b[2].0 == "foreignField"@ && b[2].1 == Value::Str(l.foreign_field)
            &&& b[3].0 == "as"@ && b[3].1 == Value::Str(l.as_field)
        },
        PipelineStage::Unwind(p) => d.len() == 1 && d[0].0 == "$unwind"@ && d[0].1 is Doc && {
            let b = d[0].1->Doc_0@;
            b.len() == 1 && b[0].0 == "path"@ && b[0].1 == Value::Str(p)
        },
        PipelineStage::Project(s) => d.len() == 1 && d[0].0 == "$project"@ && d[0].1
            == Value::Doc(s),
        PipelineStage::AddFields(s) => d.len() == 1 && d[0].0 == "$addFields"@ && d[0].1
            == Value::Doc(s),
        PipelineStage::Limit(n) => d.len() == 1 && d[0].0 == "$limit"@ && d[0].1 == Value::Int64(
            n,
        ),
        PipelineStage::Sort(s) => d.len() == 1 && d[0].0 == "$sort"@ && d[0].1 == Value::Doc(s),
    }
}

/// A document with a single entry.
fn singleton_doc(key: &str, v: Value) -> (d: Document)
    ensures
        d@.len() == 1,
        d@[0].0 == key@,
        d@[0].1 == v,
        d.wf(),
{
    let ghost value = v;
    let mut d = Document::new();
    d.insert(key.to_owned(), v);
    proof {
        assert(d@ == Seq::<(Seq<char>, Value)>::empty().push((key@, value)));
    }
    d
}

/// Translate one typed stage into its raw stage document.
pub fn build_stage(stage: PipelineStage) -> (d: Document)
    ensures
        is_stage_doc(stage, d@),
        d.wf(),
{
    match stage {
        PipelineStage::Match(f) => singleton_doc("$match", Value::Doc(f)),
        PipelineStage::Lookup(l) => {
            let LookupStage { from, local_field, foreign_field, as_field } = l;
            let ghost l_from = from@;
            let ghost l_local = local_field@;
            let ghost l_foreign = foreign_field@;
            let ghost l_as = as_field@;
            let mut b = Document::new();
            proof {
                reveal_strlit("from");
                reveal_strlit("localField");
                reveal_strlit("foreignField");
                reveal_strlit("as");
                assert("from"@.len() == 4);
                assert("localField"@.len() == 10);
                assert("foreignField"@.len() == 12);
                assert("as"@.len() == 2);
            }
            b.insert("from".to_owned(), Value::Str(from));
            proof {
                assert(!doc_has_key(b@, "localField"@));
            }
            b.insert("localField".to_owned(), Value::Str(local_field));
            proof {
                assert(!doc_has_key(b@, "foreignField"@));
            }
            b.insert("foreignField".to_owned(), Value::Str(foreign_field));
            proof {
                assert(!doc_has_key(b@, "as"@));
            }
            b.insert("as".to_owned(), Value::Str(as_field));
            proof {
                assert(b@.len() == 4);
                assert(b@[0].0 == "from"@ && b@[0].1 is Str && b@[0].1->Str_0@ == l_from);
            }
            singleton_doc("$lookup", Value::Doc(b))
        },
        PipelineStage::Unwind(p) => {
            let mut b = Document::new();
            b.insert("path".to_owned(), Value::Str(p));
            singleton_doc("$unwind", Value::Doc(b))
        },
        PipelineStage::Project(s) => singleton_doc("$project", Value::Doc(s)),
        PipelineStage::AddFields(s) => singleton_doc("$addFields", Value::Doc(s)),
        PipelineStage::Limit(n) => singleton_doc("$limit", Value::Int64(n)),
        PipelineStage::Sort(s) => singleton_doc("$sort", Value::Doc(s)),
    }
}

/// Translate a typed stage sequence into the raw pipeline: one raw
/// document per stage, in the order supplied.
pub fn build_pipeline(stages: Vec<PipelineStage>) -> (r: Vec<Document>)
    ensures
        r@.len() == stages@.len(),
        forall|i: int| 0 <= i < stages@.len() ==> is_stage_doc(stages@[i], (#[trigger] r@[i])@),
        forall|i: int| 0 <= i < r@.len() ==> (#[trigger] r@[i]).wf(),
{
    let ghost all = stages@;
    let mut rest = stages;
    let mut out: Vec<Document> = Vec::new();
    while rest.len() > 0
        invariant
            out@.len() + rest@.len() == all.len(),
            forall|k: int| 0 <= k < rest@.len() ==> #[trigger] rest@[k] == all[out@.len() + k],
            forall|i: int| 0 <= i < out@.len() ==> is_stage_doc(all[i], (#[trigger] out@[i])@),
            forall|i: int| 0 <= i < out@.len() ==> (#[trigger] out@[i]).wf(),
        decreases rest@.len(),
    {
        let st = rest.remove(0);
        let d = build_stage(st);
        out.push(d);
    }
    out
}

/// The shape-preservation law: building raw stages preserves length and
/// order — the Nth raw document is a single-entry document whose key
/// names the Nth input stage's kind.
pub proof fn lemma_pipeline_preserves_shape(
    stages: Seq<PipelineStage>,
    built: Seq<Seq<(Seq<char>, Value)>>,
)
    requires
        built.len() == stages.len(),
        forall|i: int| 0 <= i < stages.len() ==> is_stage_doc(stages[i], #[trigger] built[i]),
    ensures
        forall|i: int|
            0 <= i < built.len() ==> (#[trigger] built[i]).len() == 1 && built[i][0].0
                == spec_stage_key(stages[i]),
{
    assert forall|i: int| 0 <= i < built.len() implies (#[trigger] built[i]).len() == 1
        && built[i][0].0 == spec_stage_key(stages[i]) by {
        assert(is_stage_doc(stages[i], built[i]));
    }
}

} // verus!
