//! The decision engine: given a resource kind, a resource body and the
//! configured overrides, decide whether the resource passes through
//! unchanged or with a rewritten copy.
//!
//! The policy is narrow by design: only a resource carrying the fixed
//! target name is ever rewritten, and any body whose shape does not match
//! the expected one fails open, that is, passes through unchanged. That
//! choice covers missing nested structure inside a matched target as well,
//! so the engine never aborts an evaluation.

use vstd::pervasive::unreached;
use vstd::prelude::*;

use crate::doc::{
    doc_get, doc_set, entries_view, get_entry, got, items_view, lemma_doc_set_get,
    lemma_doc_set_other, lemma_doc_set_set, lemma_entries_view, lemma_items_view,
    lemma_obj_at_first, obj_get, obj_put, obj_set, take_key, doc_entry, Doc, DocV,
};
use crate::jsonio::{parse_json, parsed_doc, ser_json, ser_of};
use crate::settings::{Settings, SettingsV};

verus! {

/// The fixed name that a resource must carry to be eligible for rewriting.
pub open spec fn target_name() -> Seq<char> {
    "fleet-controller"@
}

/// The kind discriminator of a deployment resource.
pub open spec fn deployment_kind() -> Seq<char> {
    "Deployment"@
}

/// The kind discriminator of a config-map resource.
pub open spec fn config_map_kind() -> Seq<char> {
    "ConfigMap"@
}

/// Mathematical view of a verdict.
pub enum VerdictV {
    Unchanged(DocV),
    Mutated(DocV),
}

/// The engine's decision: let the resource through as it stands, or let it
/// through with a full replacement body.
pub enum Verdict {
    Unchanged(Doc),
    Mutated(Doc),
}

impl View for Verdict {
    type V = VerdictV;

    open spec fn view(&self) -> VerdictV {
        match self {
            Verdict::Unchanged(d) => VerdictV::Unchanged(d@),
            Verdict::Mutated(d) => VerdictV::Mutated(d@),
        }
    }
}

/// The declared name of a resource: the string under `metadata.name`.
pub open spec fn name_of(d: DocV) -> Option<Seq<char>> {
    match doc_get(d, "metadata"@) {
        Some(m) => match doc_get(m, "name"@) {
            Some(DocV::Str(s)) => Some(s),
            _ => None,
        },
        None => None,
    }
}

/// A container list suitable for rewriting: a non-empty sequence whose
/// first element is an object whose image field, if present, is a string.
pub open spec fn first_image_ok(cv: DocV) -> bool {
    match cv {
        DocV::Arr(cs) => cs.len() > 0 && match cs[0] {
            DocV::Obj(ces) => match obj_get(ces, "image"@) {
                Some(DocV::Str(_)) => true,
                Some(_) => false,
                None => true,
            },
            _ => false,
        },
        _ => false,
    }
}

/// The container list with the first container's image set to `img`.
pub open spec fn containers_rewrite(cv: DocV, img: Seq<char>) -> DocV {
    match cv {
        DocV::Arr(cs) => if cs.len() > 0 {
            DocV::Arr(cs.update(0, doc_set(cs[0], "image"@, DocV::Str(img))))
        } else {
            cv
        },
        _ => cv,
    }
}

/// Shape of a pod specification: it carries a rewritable container list.
pub open spec fn pod_shape(s2: DocV) -> bool {
    &&& doc_get(s2, "containers"@) is Some
    &&& first_image_ok(got(doc_get(s2, "containers"@)))
}

/// The pod specification with its container list rewritten.
pub open spec fn pod_rewrite(s2: DocV, img: Seq<char>) -> DocV {
    doc_set(s2, "containers"@, containers_rewrite(got(doc_get(s2, "containers"@)), img))
}

/// Shape of a pod template: it carries a pod specification of the right
/// shape.
pub open spec fn tmpl_shape(t: DocV) -> bool {
    &&& doc_get(t, "spec"@) is Some
    &&& pod_shape(got(doc_get(t, "spec"@)))
}

/// The pod template with its pod specification rewritten.
pub open spec fn tmpl_rewrite(t: DocV, img: Seq<char>) -> DocV {
    doc_set(t, "spec"@, pod_rewrite(got(doc_get(t, "spec"@)), img))
}

/// Shape of a deployment specification: it carries a template of the right
/// shape.
pub open spec fn dspec_shape(s1: DocV) -> bool {
    &&& doc_get(s1, "template"@) is Some
    &&& tmpl_shape(got(doc_get(s1, "template"@)))
}

/// The deployment specification with its template rewritten.
pub open spec fn dspec_rewrite(s1: DocV, img: Seq<char>) -> DocV {
    doc_set(s1, "template"@, tmpl_rewrite(got(doc_get(s1, "template"@)), img))
}

/// Shape of a deployment body: containers live under
/// `spec.template.spec.containers`, and the first one can take a new image.
pub open spec fn dep_shape(d: DocV) -> bool {
    &&& doc_get(d, "spec"@) is Some
    &&& dspec_shape(got(doc_get(d, "spec"@)))
}

/// The deployment body with the first container's image set to `img` and
/// nothing else touched.
pub open spec fn dep_rewrite(d: DocV, img: Seq<char>) -> DocV {
    doc_set(d, "spec"@, dspec_rewrite(got(doc_get(d, "spec"@)), img))
}

/// A data mapping all of whose values are strings.
pub open spec fn data_all_strings(dv: DocV) -> bool {
    match dv {
        DocV::Obj(es) => forall|i: int| 0 <= i < es.len() ==> (#[trigger] es[i].1) is Str,
        _ => false,
    }
}

/// Shape of a config-map body: a string-to-string data mapping carrying a
/// `config` entry.
pub open spec fn cm_shape(d: DocV) -> bool {
    match doc_get(d, "data"@) {
        Some(data) => data_all_strings(data) && match doc_get(data, "config"@) {
            Some(DocV::Str(_)) => true,
            _ => false,
        },
        None => false,
    }
}

/// The text of the embedded configuration document.
pub open spec fn config_text(d: DocV) -> Seq<char> {
    match doc_get(got(doc_get(d, "data"@)), "config"@) {
        Some(DocV::Str(s)) => s,
        _ => Seq::empty(),
    }
}

/// A config map is rewritable when it has the right shape and its embedded
/// configuration text parses to an object.
pub open spec fn cm_applies(d: DocV) -> bool {
    cm_shape(d) && match parsed_doc(config_text(d)) {
        Some(DocV::Obj(_)) => true,
        _ => false,
    }
}

/// The serialized embedded configuration with `agentImage` set to `agent`
/// and every sibling entry kept.
pub open spec fn new_config_text(d: DocV, agent: Seq<char>) -> Seq<char> {
    ser_of(doc_set(got(parsed_doc(config_text(d))), "agentImage"@, DocV::Str(agent)))
}

/// The config-map body with its embedded configuration rewritten and
/// nothing else touched.
pub open spec fn cm_rewrite(d: DocV, agent: Seq<char>) -> DocV {
    doc_set(
        d,
        "data"@,
        doc_set(got(doc_get(d, "data"@)), "config"@, DocV::Str(new_config_text(d, agent))),
    )
}

/// What one evaluation decides, for every input.
pub open spec fn spec_evaluate(kind: Seq<char>, object: DocV, cfg: SettingsV) -> VerdictV {
    if kind == deployment_kind() {
        if name_of(object) == Some(target_name()) && cfg.controller_image.len() > 0
            && dep_shape(object) {
            VerdictV::Mutated(dep_rewrite(object, cfg.controller_image))
        } else {
            VerdictV::Unchanged(object)
        }
    } else if kind == config_map_kind() {
        if name_of(object) == Some(target_name()) && cfg.agent_image.len() > 0 && cm_applies(
            object,
        ) {
            VerdictV::Mutated(cm_rewrite(object, cfg.agent_image))
        } else {
            VerdictV::Unchanged(object)
        }
    } else {
        VerdictV::Unchanged(object)
    }
}

/// A document node and its view sit in matching variants.
pub proof fn lemma_view_variants(d: Doc)
    ensures
        d is Null <==> d@ is Null,
        d is Bool <==> d@ is Bool,
        d is Num <==> d@ is Num,
        d is Str <==> d@ is Str,
        d is Arr <==> d@ is Arr,
        d is Obj <==> d@ is Obj,
{
    match d {
        Doc::Null => {},
        Doc::Bool(_) => {},
        Doc::Num(_) => {},
        Doc::Str(_) => {},
        Doc::Arr(_) => {},
        Doc::Obj(_) => {},
    }
}

/// Reads the declared name of a resource, if it carries one.
pub fn resource_name<'a>(d: &'a Doc) -> (r: Option<&'a String>)
    ensures
        match r {
            Some(s) => name_of(d@) == Some(s@),
            None => name_of(d@) is None,
        },
{
    match doc_entry(d, &"metadata".to_owned()) {
        Some(m) => match doc_entry(m, &"name".to_owned()) {
            Some(x) => match x {
                Doc::Str(s) => Some(s),
                _ => None,
            },
            None => None,
        },
        None => None,
    }
}

/// Decides whether the resource carries the fixed target name.
fn is_target(d: &Doc) -> (b: bool)
    ensures
        b == (name_of(d@) == Some(target_name())),
{
    match resource_name(d) {
        Some(s) => *s == "fleet-controller".to_owned(),
        None => false,
    }
}

/// Decides whether a deployment body has the shape the rewrite expects.
fn dep_shape_check(d: &Doc) -> (b: bool)
    ensures
        b == dep_shape(d@),
{
    let s1 = match doc_entry(d, &"spec".to_owned()) {
        Some(x) => x,
        None => {
            return false;
        },
    };
    let t = match doc_entry(s1, &"template".to_owned()) {
        Some(x) => x,
        None => {
            return false;
        },
    };
    let s2 = match doc_entry(t, &"spec".to_owned()) {
        Some(x) => x,
        None => {
            return false;
        },
    };
    let cv = match doc_entry(s2, &"containers".to_owned()) {
        Some(x) => x,
        None => {
            return false;
        },
    };
    proof {
        lemma_view_variants(*cv);
    }
    match cv {
        Doc::Arr(items) => {
            if items.len() == 0 {
                proof {
                    lemma_items_view(items@);
                }
                return false;
            }
            proof {
                lemma_items_view(items@);
                lemma_view_variants(items@[0]);
            }
            let c0 = &items[0];
            match c0 {
                Doc::Obj(ces) => {
                    match get_entry(ces, &"image".to_owned()) {
                        Some(x) => match x {
                            Doc::Str(_) => true,
                            _ => {
                                proof {
                                    lemma_view_variants(*x);
                                }
                                false
                            },
                        },
                        None => true,
                    }
                },
                _ => false,
            }
        },
        _ => false,
    }
}

/// Rewrites the first container's image in an owned container list.
fn rewrite_containers(cv: Doc, img: &String) -> (r: Doc)
    requires
        first_image_ok(cv@),
    ensures
        r@ == containers_rewrite(cv@, img@),
{
    proof {
        lemma_view_variants(cv);
    }
    match cv {
        Doc::Arr(mut items) => {
            proof {
                lemma_items_view(items@);
                lemma_view_variants(items@[0]);
            }
            let ghost items0 = items@;
            let c0 = items.remove(0);
            match c0 {
                Doc::Obj(mut ces) => {
                    obj_put(&mut ces, "image".to_owned(), Doc::Str(img.clone()));
                    let new_c0 = Doc::Obj(ces);
                    proof {
                        assert(new_c0@ == doc_set(items0[0]@, "image"@, DocV::Str(img@)));
                    }
                    items.insert(0, new_c0);
                    proof {
                        assert(items@ =~= items0.update(0, new_c0));
                        lemma_items_view(items@);
                        lemma_items_view(items0);
                        assert(items_view(items@) =~= items_view(items0).update(0, new_c0@));
                    }
                    Doc::Arr(items)
                },
                _ => unreached(),
            }
        },
        _ => unreached(),
    }
}

/// Rewrites the container list inside an owned pod specification.
fn rewrite_pod(s2: Doc, img: &String) -> (r: Doc)
    requires
        pod_shape(s2@),
    ensures
        r@ == pod_rewrite(s2@, img@),
{
    proof {
        lemma_view_variants(s2);
    }
    match s2 {
        Doc::Obj(mut es) => {
            let ghost es0 = es@;
            match take_key(&mut es, &"containers".to_owned()) {
                Some((i, k, cv)) => {
                    let new_cv = rewrite_containers(cv, img);
                    es.insert(i, (k, new_cv));
                    proof {
                        lemma_entries_view(es0);
                        lemma_entries_view(es@);
                        lemma_obj_at_first(entries_view(es0), "containers"@, new_cv@, i as int);
                        assert(es@ =~= es0.update(i as int, (k, new_cv)));
                        assert(entries_view(es@) =~= obj_set(
                            entries_view(es0),
                            "containers"@,
                            new_cv@,
                        ));
                    }
                    Doc::Obj(es)
                },
                None => unreached(),
            }
        },
        _ => unreached(),
    }
}

/// Rewrites the pod specification inside an owned pod template.
fn rewrite_tmpl(t: Doc, img: &String) -> (r: Doc)
    requires
        tmpl_shape(t@),
    ensures
        r@ == tmpl_rewrite(t@, img@),
{
    proof {
        lemma_view_variants(t);
    }
    match t {
        Doc::Obj(mut es) => {
            let ghost es0 = es@;
            match take_key(&mut es, &"spec".to_owned()) {
                Some((i, k, s2)) => {
                    let new_s2 = rewrite_pod(s2, img);
                    es.insert(i, (k, new_s2));
                    proof {
                        lemma_entries_view(es0);
                        lemma_entries_view(es@);
                        lemma_obj_at_first(entries_view(es0), "spec"@, new_s2@, i as int);
                        assert(es@ =~= es0.update(i as int, (k, new_s2)));
                        assert(entries_view(es@) =~= obj_set(entries_view(es0), "spec"@, new_s2@));
                    }
                    Doc::Obj(es)
                },
                None => unreached(),
            }
        },
        _ => unreached(),
    }
}

/// Rewrites the template inside an owned deployment specification.
fn rewrite_dspec(s1: Doc, img: &String) -> (r: Doc)
    requires
        dspec_shape(s1@),
    ensures
        r@ == dspec_rewrite(s1@, img@),
{
    proof {
        lemma_view_variants(s1);
    }
    match s1 {
        Doc::Obj(mut es) => {
            let ghost es0 = es@;
            match take_key(&mut es, &"template".to_owned()) {
                Some((i, k, t)) => {
                    let new_t = rewrite_tmpl(t, img);
                    es.insert(i, (k, new_t));
                    proof {
                        lemma_entries_view(es0);
                        lemma_entries_view(es@);
                        lemma_obj_at_first(entries_view(es0), "template"@, new_t@, i as int);
                        assert(es@ =~= es0.update(i as int, (k, new_t)));
                        assert(entries_view(es@) =~= obj_set(
                            entries_view(es0),
                            "template"@,
                            new_t@,
                        ));
                    }
                    Doc::Obj(es)
                },
                None => unreached(),
            }
        },
        _ => unreached(),
    }
}

/// Rewrites the first container's image of an owned deployment body,
/// leaving every other part of the body as it stands.
fn apply_dep_rewrite(d: Doc, img: &String) -> (r: Doc)
    requires
        dep_shape(d@),
    ensures
        r@ == dep_rewrite(d@, img@),
{
    proof {
        lemma_view_variants(d);
    }
    match d {
        Doc::Obj(mut es) => {
            let ghost es0 = es@;
            match take_key(&mut es, &"spec".to_owned()) {
                Some((i, k, s1)) => {
                    let new_s1 = rewrite_dspec(s1, img);
                    es.insert(i, (k, new_s1));
                    proof {
                        lemma_entries_view(es0);
                        lemma_entries_view(es@);
                        lemma_obj_at_first(entries_view(es0), "spec"@, new_s1@, i as int);
                        assert(es@ =~= es0.update(i as int, (k, new_s1)));
                        assert(entries_view(es@) =~= obj_set(entries_view(es0), "spec"@, new_s1@));
                    }
                    Doc::Obj(es)
                },
                None => unreached(),
            }
        },
        _ => unreached(),
    }
}

/// Computes the rewritten embedded configuration text of a config map, or
/// reports that the body is not rewritable.
fn cm_new_config(d: &Doc, agent: &String) -> (r: Option<String>)
    ensures
        match r {
            Some(s) => cm_applies(d@) && s@ == new_config_text(d@, agent@),
            None => !cm_applies(d@),
        },
{
    let data = match doc_entry(d, &"data".to_owned()) {
        Some(x) => x,
        None => {
            return None;
        },
    };
    proof {
        lemma_view_variants(*data);
    }
    let des = match data {
        Doc::Obj(es) => es,
        _ => {
            return None;
        },
    };
    let mut i: usize = 0;
    while i < des.len()
        invariant
            i <= des@.len(),
            doc_get(d@, "data"@) == Some(DocV::Obj(entries_view(des@))),
            forall|j: int| 0 <= j < i ==> (#[trigger] des@[j].1)@ is Str,
        decreases des@.len() - i,
    {
        proof {
            lemma_entries_view(des@);
            lemma_view_variants(des@[i as int].1);
        }
        match &des[i].1 {
            Doc::Str(_) => {},
            _ => {
                proof {
                    lemma_entries_view(des@);
                    assert(!(entries_view(des@)[i as int].1 is Str));
                }
                return None;
            },
        }
        i += 1;
    }
    proof {
        lemma_entries_view(des@);
        assert(data_all_strings(data@));
    }
    let cfg_entry = match get_entry(des, &"config".to_owned()) {
        Some(x) => x,
        None => {
            return None;
        },
    };
    proof {
        lemma_view_variants(*cfg_entry);
    }
    let cfg_text = match cfg_entry {
        Doc::Str(s) => s,
        _ => {
            return None;
        },
    };
    let parsed = match parse_json(cfg_text) {
        Some(p) => p,
        None => {
            return None;
        },
    };
    proof {
        lemma_view_variants(parsed);
    }
    let mut inner = match parsed {
        Doc::Obj(es) => es,
        _ => {
            return None;
        },
    };
    obj_put(&mut inner, "agentImage".to_owned(), Doc::Str(agent.clone()));
    let out = ser_json(&Doc::Obj(inner));
    Some(out)
}

/// Replaces the embedded configuration text of an owned config-map body,
/// leaving every other part of the body as it stands.
fn apply_cm_rewrite(d: Doc, new_text: String) -> (r: Doc)
    requires
        cm_shape(d@),
    ensures
        r@ == doc_set(
            d@,
            "data"@,
            doc_set(got(doc_get(d@, "data"@)), "config"@, DocV::Str(new_text@)),
        ),
{
    proof {
        lemma_view_variants(d);
    }
    match d {
        Doc::Obj(mut top) => {
            let ghost top0 = top@;
            match take_key(&mut top, &"data".to_owned()) {
                Some((i, k, data)) => {
                    proof {
                        lemma_view_variants(data);
                    }
                    match data {
                        Doc::Obj(mut des) => {
                            let ghost des0 = des@;
                            match take_key(&mut des, &"config".to_owned()) {
                                Some((j, k2, _old_text)) => {
                                    des.insert(j, (k2, Doc::Str(new_text)));
                                    proof {
                                        lemma_entries_view(des0);
                                        lemma_entries_view(des@);
                                        lemma_obj_at_first(
                                            entries_view(des0),
                                            "config"@,
                                            DocV::Str(new_text@),
                                            j as int,
                                        );
                                        assert(des@ =~= des0.update(
                                            j as int,
                                            (k2, Doc::Str(new_text)),
                                        ));
                                        assert(entries_view(des@) =~= obj_set(
                                            entries_view(des0),
                                            "config"@,
                                            DocV::Str(new_text@),
                                        ));
                                    }
                                    let new_data = Doc::Obj(des);
                                    top.insert(i, (k, new_data));
                                    proof {
                                        lemma_entries_view(top0);
                                        lemma_entries_view(top@);
                                        lemma_obj_at_first(
                                            entries_view(top0),
                                            "data"@,
                                            new_data@,
                                            i as int,
                                        );
                                        assert(top@ =~= top0.update(i as int, (k, new_data)));
                                        assert(entries_view(top@) =~= obj_set(
                                            entries_view(top0),
                                            "data"@,
                                            new_data@,
                                        ));
                                    }
                                    Doc::Obj(top)
                                },
                                None => unreached(),
                            }
                        },
                        _ => unreached(),
                    }
                },
                None => unreached(),
            }
        },
        _ => unreached(),
    }
}

/// Evaluates one admission request: the resource kind, the resource body
/// and the configured overrides go in, the verdict comes out. The verdict
/// is exactly what `spec_evaluate` states, for every input.
///
/// Every malformed input fails open: an unrecognized kind, a body that
/// does not carry the expected nested shape, and a matched target whose
/// nested structure is missing or whose embedded configuration does not
/// parse all pass through unchanged rather than aborting the evaluation.
pub fn evaluate(kind: &String, object: Doc, settings: &Settings) -> (v: Verdict)
    ensures
        v@ == spec_evaluate(kind@, object@, settings@),
{
    if *kind == "Deployment".to_owned() {
        let gated = is_target(&object) && !settings.controller_image.as_str().is_empty();
        if gated && dep_shape_check(&object) {
            Verdict::Mutated(apply_dep_rewrite(object, &settings.controller_image))
        } else {
            Verdict::Unchanged(object)
        }
    } else if *kind == "ConfigMap".to_owned() {
        let gated = is_target(&object) && !settings.agent_image.as_str().is_empty();
        if gated {
            match cm_new_config(&object, &settings.agent_image) {
                Some(new_text) => Verdict::Mutated(apply_cm_rewrite(object, new_text)),
                None => Verdict::Unchanged(object),
            }
        } else {
            Verdict::Unchanged(object)
        }
    } else {
        Verdict::Unchanged(object)
    }
}

/// The pod specification a deployment body carries, read along the fixed
/// path.
pub open spec fn pod_of(d: DocV) -> DocV {
    got(doc_get(got(doc_get(got(doc_get(d, "spec"@)), "template"@)), "spec"@))
}

/// The container list a deployment body carries.
pub open spec fn containers_of(d: DocV) -> DocV {
    got(doc_get(pod_of(d), "containers"@))
}

/// The image of the first container of a deployment body, if any.
pub open spec fn first_image_of(d: DocV) -> Option<DocV> {
    match containers_of(d) {
        DocV::Arr(cs) => if cs.len() > 0 {
            doc_get(cs[0], "image"@)
        } else {
            None
        },
        _ => None,
    }
}

/// Everything in `r` outside the first container's image equals `d`: every
/// key off the rewritten path, every container past the first, and every
/// field of the first container other than its image.
pub open spec fn unchanged_outside_dep_path(d: DocV, r: DocV) -> bool {
    let s1 = got(doc_get(d, "spec"@));
    let t = got(doc_get(s1, "template"@));
    let s2 = got(doc_get(t, "spec"@));
    let cv = got(doc_get(s2, "containers"@));
    let r1 = got(doc_get(r, "spec"@));
    let rt = got(doc_get(r1, "template"@));
    let r2 = got(doc_get(rt, "spec"@));
    let rv = got(doc_get(r2, "containers"@));
    &&& forall|k: Seq<char>| k != "spec"@ ==> #[trigger] doc_get(r, k) == doc_get(d, k)
    &&& forall|k: Seq<char>| k != "template"@ ==> #[trigger] doc_get(r1, k) == doc_get(s1, k)
    &&& forall|k: Seq<char>| k != "spec"@ ==> #[trigger] doc_get(rt, k) == doc_get(t, k)
    &&& forall|k: Seq<char>| k != "containers"@ ==> #[trigger] doc_get(r2, k) == doc_get(s2, k)
    &&& rv is Arr
    &&& cv is Arr
    &&& rv->Arr_0.len() == cv->Arr_0.len()
    &&& forall|i: int| 1 <= i < cv->Arr_0.len() ==> rv->Arr_0[i] == cv->Arr_0[i]
    &&& forall|k: Seq<char>|
        k != "image"@ ==> #[trigger] doc_get(rv->Arr_0[0], k) == doc_get(cv->Arr_0[0], k)
}

/// Any kind outside the two recognized ones passes through unchanged,
/// whatever the body and the configuration hold.
pub proof fn lemma_unrecognized_kind_unchanged(kind: Seq<char>, object: DocV, cfg: SettingsV)
    requires
        kind != deployment_kind(),
        kind != config_map_kind(),
    ensures
        spec_evaluate(kind, object, cfg) == VerdictV::Unchanged(object),
{
}

/// A deployment whose name is not the target, or an empty controller
/// override, passes through unchanged whatever the rest of the body holds.
pub proof fn lemma_deployment_gate_unchanged(object: DocV, cfg: SettingsV)
    requires
        name_of(object) != Some(target_name()) || cfg.controller_image.len() == 0,
    ensures
        spec_evaluate(deployment_kind(), object, cfg) == VerdictV::Unchanged(object),
{
}

/// A config map whose name is not the target, or an empty agent override,
/// passes through unchanged whatever the rest of the body holds.
pub proof fn lemma_config_map_gate_unchanged(object: DocV, cfg: SettingsV)
    requires
        name_of(object) != Some(target_name()) || cfg.agent_image.len() == 0,
    ensures
        spec_evaluate(config_map_kind(), object, cfg) == VerdictV::Unchanged(object),
{
    reveal_strlit("Deployment");
    reveal_strlit("ConfigMap");
    assert("Deployment"@.len() == 10);
    assert("ConfigMap"@.len() == 9);
    assert(config_map_kind() != deployment_kind());
}

/// Whenever the verdict is to pass a resource through, the body it passes
/// through is exactly the input body.
pub proof fn lemma_unchanged_returns_input(kind: Seq<char>, object: DocV, cfg: SettingsV)
    requires
        spec_evaluate(kind, object, cfg) is Unchanged,
    ensures
        spec_evaluate(kind, object, cfg) == VerdictV::Unchanged(object),
{
}

/// A matched deployment with a non-empty override is mutated: the first
/// container's image becomes exactly the override, and everything else in
/// the body stays as it was.
pub proof fn lemma_deployment_mutation(object: DocV, cfg: SettingsV)
    requires
        name_of(object) == Some(target_name()),
        cfg.controller_image.len() > 0,
        dep_shape(object),
    ensures
        spec_evaluate(deployment_kind(), object, cfg) == VerdictV::Mutated(
            dep_rewrite(object, cfg.controller_image),
        ),
        first_image_of(dep_rewrite(object, cfg.controller_image)) == Some(
            DocV::Str(cfg.controller_image),
        ),
        unchanged_outside_dep_path(object, dep_rewrite(object, cfg.controller_image)),
{
    let img = cfg.controller_image;
    let r = dep_rewrite(object, img);
    let s1 = got(doc_get(object, "spec"@));
    let t = got(doc_get(s1, "template"@));
    let s2 = got(doc_get(t, "spec"@));
    let cv = got(doc_get(s2, "containers"@));
    let cs = cv->Arr_0;
    let x3 = pod_rewrite(s2, img);
    let x2 = tmpl_rewrite(t, img);
    let x1 = dspec_rewrite(s1, img);
    let cvr = containers_rewrite(cv, img);
    lemma_doc_set_get(object, "spec"@, x1);
    lemma_doc_set_get(s1, "template"@, x2);
    lemma_doc_set_get(t, "spec"@, x3);
    lemma_doc_set_get(s2, "containers"@, cvr);
    assert(doc_get(r, "spec"@) == Some(x1));
    assert(doc_get(x1, "template"@) == Some(x2));
    assert(doc_get(x2, "spec"@) == Some(x3));
    assert(doc_get(x3, "containers"@) == Some(cvr));
    assert(cvr == DocV::Arr(cs.update(0, doc_set(cs[0], "image"@, DocV::Str(img)))));
    lemma_doc_set_get(cs[0], "image"@, DocV::Str(img));
    assert(first_image_of(r) == Some(DocV::Str(img)));
    assert forall|k: Seq<char>| k != "spec"@ implies #[trigger] doc_get(r, k) == doc_get(
        object,
        k,
    ) by {
        lemma_doc_set_other(object, "spec"@, x1, k);
    }
    assert forall|k: Seq<char>| k != "template"@ implies #[trigger] doc_get(x1, k) == doc_get(
        s1,
        k,
    ) by {
        lemma_doc_set_other(s1, "template"@, x2, k);
    }
    assert forall|k: Seq<char>| k != "spec"@ implies #[trigger] doc_get(x2, k) == doc_get(
        t,
        k,
    ) by {
        lemma_doc_set_other(t, "spec"@, x3, k);
    }
    assert forall|k: Seq<char>| k != "containers"@ implies #[trigger] doc_get(x3, k) == doc_get(
        s2,
        k,
    ) by {
        lemma_doc_set_other(s2, "containers"@, cvr, k);
    }
    assert forall|k: Seq<char>|
        k != "image"@ implies #[trigger] doc_get(cvr->Arr_0[0], k) == doc_get(cs[0], k) by {
        lemma_doc_set_other(cs[0], "image"@, DocV::Str(img), k);
    }
}

/// Applying the deployment rewrite to an already rewritten body changes
/// nothing: evaluating the mutated body again yields it back unchanged in
/// content.
pub proof fn lemma_deployment_idempotent(object: DocV, cfg: SettingsV)
    requires
        name_of(object) == Some(target_name()),
        cfg.controller_image.len() > 0,
        dep_shape(object),
    ensures
        spec_evaluate(deployment_kind(), dep_rewrite(object, cfg.controller_image), cfg)
            == VerdictV::Mutated(dep_rewrite(object, cfg.controller_image)),
{
    let img = cfg.controller_image;
    let m = dep_rewrite(object, img);
    let s1 = got(doc_get(object, "spec"@));
    let t = got(doc_get(s1, "template"@));
    let s2 = got(doc_get(t, "spec"@));
    let cv = got(doc_get(s2, "containers"@));
    let cs = cv->Arr_0;
    let c0r = doc_set(cs[0], "image"@, DocV::Str(img));
    let x3 = pod_rewrite(s2, img);
    let x2 = tmpl_rewrite(t, img);
    let x1 = dspec_rewrite(s1, img);
    let cvr = containers_rewrite(cv, img);
    lemma_doc_set_get(object, "spec"@, x1);
    lemma_doc_set_get(s1, "template"@, x2);
    lemma_doc_set_get(t, "spec"@, x3);
    lemma_doc_set_get(s2, "containers"@, cvr);
    lemma_doc_set_get(cs[0], "image"@, DocV::Str(img));
    // the rewritten body still carries the target name
    reveal_strlit("metadata");
    reveal_strlit("spec");
    assert("metadata"@.len() == 8);
    assert("spec"@.len() == 4);
    assert("metadata"@ != "spec"@);
    lemma_doc_set_other(object, "spec"@, x1, "metadata"@);
    assert(name_of(m) == name_of(object));
    // the rewritten body still has the expected shape
    assert(cvr->Arr_0[0] == c0r);
    assert(first_image_ok(cvr));
    assert(pod_shape(x3));
    assert(tmpl_shape(x2));
    assert(dspec_shape(x1));
    assert(dep_shape(m));
    // rewriting a second time reproduces the same body
    lemma_doc_set_set(cs[0], "image"@, DocV::Str(img), DocV::Str(img));
    assert(doc_set(c0r, "image"@, DocV::Str(img)) == c0r);
    assert(containers_rewrite(cvr, img) == DocV::Arr(
        cvr->Arr_0.update(0, doc_set(cvr->Arr_0[0], "image"@, DocV::Str(img))),
    ));
    assert(cvr->Arr_0.update(0, c0r) =~= cvr->Arr_0);
    assert(containers_rewrite(cvr, img) == cvr);
    lemma_doc_set_set(s2, "containers"@, cvr, cvr);
    assert(pod_rewrite(x3, img) == x3);
    lemma_doc_set_set(t, "spec"@, x3, x3);
    assert(tmpl_rewrite(x2, img) == x2);
    lemma_doc_set_set(s1, "template"@, x2, x2);
    assert(dspec_rewrite(x1, img) == x1);
    lemma_doc_set_set(object, "spec"@, x1, x1);
    assert(dep_rewrite(m, img) == m);
}

/// A matched config map with a non-empty override is mutated: the data
/// mapping's `config` entry becomes the rewritten embedded text, and every
/// other part of the body stays as it was.
pub proof fn lemma_config_map_mutation(object: DocV, cfg: SettingsV)
    requires
        name_of(object) == Some(target_name()),
        cfg.agent_image.len() > 0,
        cm_applies(object),
    ensures
        spec_evaluate(config_map_kind(), object, cfg) == VerdictV::Mutated(
            cm_rewrite(object, cfg.agent_image),
        ),
        doc_get(got(doc_get(cm_rewrite(object, cfg.agent_image), "data"@)), "config"@) == Some(
            DocV::Str(new_config_text(object, cfg.agent_image)),
        ),
        forall|k: Seq<char>|
            k != "data"@ ==> #[trigger] doc_get(cm_rewrite(object, cfg.agent_image), k)
                == doc_get(object, k),
        forall|k: Seq<char>|
            k != "config"@ ==> #[trigger] doc_get(
                got(doc_get(cm_rewrite(object, cfg.agent_image), "data"@)),
                k,
            ) == doc_get(got(doc_get(object, "data"@)), k),
{
    reveal_strlit("Deployment");
    reveal_strlit("ConfigMap");
    assert("Deployment"@.len() == 10);
    assert("ConfigMap"@.len() == 9);
    assert(config_map_kind() != deployment_kind());
    let agent = cfg.agent_image;
    let r = cm_rewrite(object, agent);
    let data = got(doc_get(object, "data"@));
    let new_data = doc_set(data, "config"@, DocV::Str(new_config_text(object, agent)));
    lemma_doc_set_get(object, "data"@, new_data);
    assert(doc_get(r, "data"@) == Some(new_data));
    lemma_doc_set_get(data, "config"@, DocV::Str(new_config_text(object, agent)));
    assert forall|k: Seq<char>| k != "data"@ implies #[trigger] doc_get(r, k) == doc_get(
        object,
        k,
    ) by {
        lemma_doc_set_other(object, "data"@, new_data, k);
    }
    assert forall|k: Seq<char>| k != "config"@ implies #[trigger] doc_get(new_data, k)
        == doc_get(data, k) by {
        lemma_doc_set_other(data, "config"@, DocV::Str(new_config_text(object, agent)), k);
    }
}

/// The rewritten embedded configuration holds the override under
/// `agentImage` and keeps every sibling entry of the parsed document.
pub proof fn lemma_inner_config_additive(object: DocV, agent: Seq<char>)
    requires
        cm_applies(object),
    ensures
        ({
            let inner = got(parsed_doc(config_text(object)));
            let rewritten = doc_set(inner, "agentImage"@, DocV::Str(agent));
            &&& new_config_text(object, agent) == ser_of(rewritten)
            &&& doc_get(rewritten, "agentImage"@) == Some(DocV::Str(agent))
            &&& forall|k: Seq<char>|
                k != "agentImage"@ ==> #[trigger] doc_get(rewritten, k) == doc_get(inner, k)
        }),
{
    let inner = got(parsed_doc(config_text(object)));
    let rewritten = doc_set(inner, "agentImage"@, DocV::Str(agent));
    lemma_doc_set_get(inner, "agentImage"@, DocV::Str(agent));
    assert forall|k: Seq<char>| k != "agentImage"@ implies #[trigger] doc_get(rewritten, k)
        == doc_get(inner, k) by {
        lemma_doc_set_other(inner, "agentImage"@, DocV::Str(agent), k);
    }
}

} // verus!
