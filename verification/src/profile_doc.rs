//! Assembling a whole profile from its decoded document.

use vstd::prelude::*;
use crate::layer_build::{add_layer, layers_from, LayerState, RawLayer};
use crate::mapping_build::{listed, mappings_of, parse_mappings, RawMapping};
use crate::outputs::{normalize_output_type, normalized_output};
use crate::profile_build::{fail, perr, ProfileError, ProfileErrorKind, ProfileErrorModel};
use crate::profiles::{
    copy_mappings, layers_view, mappings_view, strings_view, DeviceMatch, Layer, LayerModel,
    Mapping, MappingModel, ProcessMatch, Profile, ProfileModel, MAX_SHIFT_LAYERS,
};
use crate::text::{chars_of, string_from_chars, trim, trim_str};

verus! {

/// A profile's `output:` value: a bare type or an object with a type.
#[derive(Clone, Debug)]
pub enum RawOutput {
    Scalar(String),
    Object { kind: Option<String> },
}

/// A value that may be one string or a list of them.
#[derive(Clone, Debug)]
pub enum RawStringOrList {
    Scalar(String),
    List(Vec<String>),
}

/// A profile document as decoded.
#[derive(Clone, Debug)]
pub struct RawProfile {
    pub id: Option<String>,
    pub name: Option<String>,
    pub description: Option<String>,
    pub device_match: DeviceMatch,
    pub groups: Vec<DeviceMatch>,
    pub process: Option<RawStringOrList>,
    pub output: Option<RawOutput>,
    pub outputs: Vec<String>,
    pub passthrough: Option<bool>,
    pub grab_source: Option<bool>,
    pub mappings: Option<Vec<RawMapping>>,
    pub layers: Option<Vec<RawLayer>>,
}

/// The output type a document asks for, before normalizing (`xbox360` when
/// it names none).
pub open spec fn output_source(o: Option<RawOutput>) -> Seq<char> {
    match o {
        Some(RawOutput::Scalar(v)) => v@,
        Some(RawOutput::Object { kind: Some(k) }) => k@,
        _ => "xbox360"@,
    }
}

/// The strings of a string-or-list value.
pub open spec fn string_items(o: Option<RawStringOrList>) -> Seq<Seq<char>> {
    match o {
        Some(RawStringOrList::Scalar(s)) => seq![s@],
        Some(RawStringOrList::List(v)) => strings_view(v@),
        None => Seq::empty(),
    }
}

/// The process patterns: each item trimmed, empty ones dropped.
pub open spec fn process_patterns_of(items: Seq<Seq<char>>) -> Seq<Seq<char>>
    decreases items.len(),
{
    if items.len() == 0 {
        Seq::empty()
    } else {
        let prev = process_patterns_of(items.drop_last());
        let t = trim(items.last());
        if t.len() > 0 {
            prev.push(t)
        } else {
            prev
        }
    }
}

/// The layer state a profile starts from: the main layer with the top-level
/// mappings.
pub open spec fn start_state(main_mappings: Seq<MappingModel>) -> LayerState {
    LayerState { main_name: "Main"@, main_mappings, shifts: Seq::empty() }
}

/// The context top-level mappings are reported in.
pub open spec fn top_level_context() -> Seq<char> {
    "top-level mappings"@
}

/// The profile a document describes. `default_id` is the id used when the
/// document has none (the file stem); `source_path` is recorded as given.
/// The top-level mappings are read first, then the layers in order; at most
/// 10 shift layers are allowed. The output type defaults to `xbox360`;
/// pass-through and grabbing the source default to on.
pub open spec fn profile_of(
    raw: RawProfile,
    default_id: Seq<char>,
    source_path: Seq<char>,
) -> Result<ProfileModel, ProfileErrorModel> {
    let id = match raw.id {
        Some(i) => i@,
        None => default_id,
    };
    let name = match raw.name {
        Some(n) => n@,
        None => id,
    };
    match mappings_of(listed(raw.mappings), top_level_context()) {
        Err(e) => Err(e),
        Ok(top) => match layers_from(start_state(top), listed(raw.layers)) {
            Err(e) => Err(e),
            Ok(st) => {
                if st.shifts.len() > MAX_SHIFT_LAYERS {
                    Err(perr(ProfileErrorKind::TooManyShiftLayers, Seq::empty(), Seq::empty()))
                } else {
                    Ok(
                        ProfileModel {
                            id,
                            name,
                            description: match raw.description {
                                Some(d) => d@,
                                None => Seq::empty(),
                            },
                            device_match: raw.device_match,
                            groups: raw.groups@,
                            process_patterns: process_patterns_of(string_items(raw.process)),
                            output_type: normalized_output(output_source(raw.output)),
                            outputs: strings_view(raw.outputs@).map_values(
                                |o: Seq<char>| normalized_output(o),
                            ),
                            passthrough: match raw.passthrough {
                                Some(b) => b,
                                None => true,
                            },
                            grab_source: match raw.grab_source {
                                Some(b) => b,
                                None => true,
                            },
                            source_path,
                            mappings: st.main_mappings,
                            layers: seq![
                                LayerModel {
                                    id: "main"@,
                                    name: st.main_name,
                                    activation: None,
                                    mappings: st.main_mappings,
                                },
                            ] + st.shifts,
                        },
                    )
                }
            },
        },
    }
}

/// Pass-through and grabbing the source are on unless the document turns
/// them off, and a value the document gives is kept; these two settings
/// never decide whether a document is accepted, nor anything else about the
/// profile.
pub proof fn law_profile_flags(
    raw: RawProfile,
    default_id: Seq<char>,
    source_path: Seq<char>,
    passthrough: Option<bool>,
    grab_source: Option<bool>,
)
    ensures
        profile_of(raw, default_id, source_path) matches Ok(m) ==> (m.passthrough <==> raw.passthrough != Some(false))
            && (m.grab_source <==> raw.grab_source != Some(false)),
        profile_of(RawProfile { passthrough, grab_source, ..raw }, default_id, source_path) is Ok
            <==> profile_of(raw, default_id, source_path) is Ok,
        profile_of(raw, default_id, source_path) matches Ok(m) ==> profile_of(
            RawProfile { passthrough, grab_source, ..raw },
            default_id,
            source_path,
        ) == Ok::<ProfileModel, ProfileErrorModel>(ProfileModel {
            passthrough: passthrough != Some(false),
            grab_source: grab_source != Some(false),
            ..m
        }),
{
}

fn process_patterns(items: &Option<RawStringOrList>) -> (r: Vec<String>)
    ensures
        strings_view(r@) == process_patterns_of(string_items(*items)),
{
    let mut list: Vec<String> = Vec::new();
    match items {
        Some(RawStringOrList::Scalar(s)) => {
            list.push(s.clone());
        },
        Some(RawStringOrList::List(v)) => {
            list = crate::profiles::copy_string_vec(v);
        },
        None => {},
    }
    assert(strings_view(list@) =~= string_items(*items));
    let ghost all = strings_view(list@);
    let mut out: Vec<String> = Vec::new();
    let mut i: usize = 0;
    assert(all.subrange(0, 0) =~= Seq::<Seq<char>>::empty());
    assert(strings_view(out@) =~= Seq::<Seq<char>>::empty());
    while i < list.len()
        invariant
            i <= list@.len(),
            all == strings_view(list@),
            strings_view(out@) == process_patterns_of(all.subrange(0, i as int)),
        decreases list@.len() - i,
    {
        let ghost pre = all.subrange(0, i + 1);
        assert(pre.drop_last() =~= all.subrange(0, i as int));
        assert(pre.last() == list@[i as int]@);
        let t = trim_str(list[i].as_str());
        let ghost before = strings_view(out@);
        if t.len() > 0 {
            let ts = string_from_chars(&t);
            out.push(ts);
            assert(strings_view(out@) =~= before.push(ts@));
        }
        i = i + 1;
    }
    assert(all.subrange(0, all.len() as int) =~= all);
    out
}

fn normalize_outputs(v: &Vec<String>) -> (r: Vec<String>)
    ensures
        strings_view(r@) == strings_view(v@).map_values(|o: Seq<char>| normalized_output(o)),
{
    let mut out: Vec<String> = Vec::new();
    let mut i: usize = 0;
    while i < v.len()
        invariant
            i <= v@.len(),
            out@.len() == i,
            forall|k: int| 0 <= k < i ==> (#[trigger] out@[k])@ == normalized_output(v@[k]@),
        decreases v@.len() - i,
    {
        out.push(normalize_output_type(v[i].as_str()));
        i = i + 1;
    }
    assert(strings_view(out@) =~= strings_view(v@).map_values(|o: Seq<char>| normalized_output(o)));
    out
}

proof fn lemma_layers_error_stays(st: LayerState, raws: Seq<RawLayer>, n: int)
    requires
        0 <= n <= raws.len(),
        layers_from(st, raws.subrange(0, n)) is Err,
    ensures
        layers_from(st, raws) == layers_from(st, raws.subrange(0, n)),
    decreases raws.len() - n,
{
    if n < raws.len() {
        assert(raws.subrange(0, n + 1).drop_last() =~= raws.subrange(0, n));
        lemma_layers_error_stays(st, raws, n + 1);
    } else {
        assert(raws.subrange(0, n) =~= raws);
    }
}

/// Builds the profile a decoded document describes (see [`profile_of`]).
pub fn build_profile(raw: RawProfile, default_id: &str, source_path: &str) -> (r: Result<Profile, ProfileError>)
    ensures
        match r {
            Ok(p) => profile_of(raw, default_id@, source_path@) == Ok::<ProfileModel, ProfileErrorModel>(p@),
            Err(e) => profile_of(raw, default_id@, source_path@) == Err::<ProfileModel, ProfileErrorModel>(e@),
        },
{
    let id: String = match &raw.id {
        Some(i) => i.clone(),
        None => string_from_chars(&chars_of(default_id)),
    };
    let name: String = match &raw.name {
        Some(n) => n.clone(),
        None => id.clone(),
    };
    let top_context = chars_of("top-level mappings");
    let top = parse_mappings(&raw.mappings, &top_context)?;
    let mut main_name: String = "Main".to_owned();
    let mut main_mappings: Vec<Mapping> = top;
    let mut shifts: Vec<Layer> = Vec::new();
    let ghost start = start_state(mappings_view(main_mappings@));
    assert(layers_view(shifts@) =~= Seq::<LayerModel>::empty());
    if let Some(raw_layers) = &raw.layers {
        let mut i: usize = 0;
        assert(raw_layers@.subrange(0, 0) =~= Seq::<RawLayer>::empty());
        while i < raw_layers.len()
            invariant
                i <= raw_layers@.len(),
                listed(raw.layers) == raw_layers@,
                mappings_of(listed(raw.mappings), top_level_context()) == Ok::<Seq<MappingModel>, ProfileErrorModel>(start.main_mappings),
                start == start_state(start.main_mappings),
                id@ == match raw.id {
                    Some(i) => i@,
                    None => default_id@,
                },
                layers_from(start, raw_layers@.subrange(0, i as int)) == Ok::<LayerState, ProfileErrorModel>(
                    LayerState {
                        main_name: main_name@,
                        main_mappings: mappings_view(main_mappings@),
                        shifts: layers_view(shifts@),
                    },
                ),
            decreases raw_layers@.len() - i,
        {
            let ghost pre = raw_layers@.subrange(0, i + 1);
            assert(pre.drop_last() =~= raw_layers@.subrange(0, i as int));
            assert(pre.last() == raw_layers@[i as int]);
            match add_layer(&mut main_name, &mut main_mappings, &mut shifts, &raw_layers[i], i) {
                Ok(_) => {},
                Err(e) => {
                    proof {
                        lemma_layers_error_stays(start, raw_layers@, i + 1);
                    }
                    return Err(e);
                },
            }
            i = i + 1;
        }
        assert(raw_layers@.subrange(0, raw_layers@.len() as int) =~= raw_layers@);
    } else {
        assert(listed(raw.layers) =~= Seq::<RawLayer>::empty());
    }
    assert(layers_from(start, listed(raw.layers)) == Ok::<LayerState, ProfileErrorModel>(
        LayerState {
            main_name: main_name@,
            main_mappings: mappings_view(main_mappings@),
            shifts: layers_view(shifts@),
        },
    ));
    if shifts.len() > MAX_SHIFT_LAYERS {
        let empty: Vec<char> = Vec::new();
        return Err(fail(ProfileErrorKind::TooManyShiftLayers, &empty, &empty));
    }
    let output_type = match &raw.output {
        Some(RawOutput::Scalar(v)) => normalize_output_type(v.as_str()),
        Some(RawOutput::Object { kind: Some(k) }) => normalize_output_type(k.as_str()),
        _ => normalize_output_type("xbox360"),
    };
    let outputs = normalize_outputs(&raw.outputs);
    let patterns = process_patterns(&raw.process);
    let description = match &raw.description {
        Some(d) => d.clone(),
        None => String::new(),
    };
    let passthrough = match raw.passthrough {
        Some(b) => b,
        None => true,
    };
    let grab_source = match raw.grab_source {
        Some(b) => b,
        None => true,
    };
    let mappings = copy_mappings(&main_mappings);
    let main = Layer {
        id: "main".to_owned(),
        name: main_name,
        activation: None,
        mappings: main_mappings,
    };
    let mut layers: Vec<Layer> = Vec::new();
    layers.push(main);
    let ghost first = layers_view(layers@);
    let ghost rest = layers_view(shifts@);
    layers.append(&mut shifts);
    assert(layers_view(layers@) =~= first + rest);
    let source = string_from_chars(&chars_of(source_path));
    let ghost raw0 = raw;
    let RawProfile { device_match, groups, .. } = raw;
    let p = Profile {
        id,
        name,
        description,
        device_match,
        groups,
        process_match: ProcessMatch { patterns },
        output_type,
        outputs,
        passthrough,
        grab_source,
        source_path: source,
        mappings,
        layers,
    };
    proof {
        let st = LayerState {
            main_name: p.layers@[0].name@,
            main_mappings: mappings_view(p.mappings@),
            shifts: rest,
        };
        assert(p@.id == (match raw0.id { Some(i) => i@, None => default_id@ }));
        assert(p@.name == (match raw0.name { Some(n) => n@, None => p@.id }));
        assert(p@.device_match == raw0.device_match);
        assert(p@.groups == raw0.groups@);
        assert(p@.output_type == normalized_output(output_source(raw0.output)));
        assert(p@.layers =~= seq![
            LayerModel {
                id: "main"@,
                name: st.main_name,
                activation: None,
                mappings: st.main_mappings,
            },
        ] + st.shifts);
    }
    Ok(p)
}

} // verus!
