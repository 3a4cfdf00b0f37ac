//! Reading the layers of a profile: layer ids, activation controls, and how
//! each layer joins the main layer or the shift layers.

use vstd::prelude::*;
use crate::event_code::{event_name, parse_event_code, parsed_event, EventCode};
use crate::mapping_build::{listed, mappings_of, parse_mappings, RawMapping};
use crate::profile_build::{
    fail, fail_at, first_some, opt_view, perr, perr_at, ProfileError, ProfileErrorKind,
    ProfileErrorModel,
};
use crate::profiles::{
    layers_view, mappings_view, Layer, LayerActivation, LayerActivationMode,
    LayerActivationModel, LayerModel, Mapping, MappingModel, MAIN_LAYER_ID,
};
use crate::text::{
    chars_eq_str, chars_of, concat_chars, decimal, decimal_chars, normalize_keyword,
    normalize_keyword_str, string_from_chars,
};

verus! {

/// A character a layer id keeps: an ASCII letter or digit, or `_`.
pub open spec fn id_char(c: char) -> bool {
    ('a' <= c && c <= 'z') || ('A' <= c && c <= 'Z') || ('0' <= c && c <= '9') || c == '_'
}

/// The layer id a text stands for: the normalized keyword without the
/// characters an id cannot hold; it must keep at least one.
pub open spec fn layer_id_of(value: Seq<char>) -> Result<Seq<char>, ProfileErrorModel> {
    let n = normalize_keyword(value).filter(|c: char| id_char(c));
    if n.len() == 0 {
        Err(perr(ProfileErrorKind::EmptyLayerId, Seq::empty(), Seq::empty()))
    } else {
        Ok(n)
    }
}

/// Turns a layer name into its id: trimmed, lower case, spaces and hyphens as
/// `_`, keeping only ASCII letters, digits and `_`.
pub fn normalize_layer_id(value: &str) -> (r: Result<String, ProfileError>)
    ensures
        match r {
            Ok(id) => layer_id_of(value@) == Ok::<Seq<char>, ProfileErrorModel>(id@),
            Err(e) => layer_id_of(value@) == Err::<Seq<char>, ProfileErrorModel>(e@),
        },
{
    let n = normalize_keyword_str(value);
    let mut kept: Vec<char> = Vec::new();
    let mut i: usize = 0;
    while i < n.len()
        invariant
            i <= n@.len(),
            kept@ == n@.subrange(0, i as int).filter(|c: char| id_char(c)),
        decreases n@.len() - i,
    {
        proof {
            assert(n@.subrange(0, i + 1).drop_last() =~= n@.subrange(0, i as int));
            reveal_with_fuel(Seq::filter, 1);
        }
        let c = n[i];
        if ('a' <= c && c <= 'z') || ('A' <= c && c <= 'Z') || ('0' <= c && c <= '9') || c == '_' {
            kept.push(c);
        }
        assert(kept@ =~= n@.subrange(0, i + 1).filter(|c: char| id_char(c)));
        i = i + 1;
    }
    assert(n@.subrange(0, n@.len() as int) =~= n@);
    if kept.len() == 0 {
        let empty: Vec<char> = Vec::new();
        return Err(fail(ProfileErrorKind::EmptyLayerId, &empty, &empty));
    }
    Ok(string_from_chars(&kept))
}

/// The activation mode a keyword names.
pub open spec fn activation_mode_of(value: Seq<char>) -> Result<LayerActivationMode, ProfileErrorModel> {
    let n = normalize_keyword(value);
    if n == "hold"@ || n == "held"@ || n == "momentary"@ || n == "while_held"@ {
        Ok(LayerActivationMode::Hold)
    } else if n == "toggle"@ || n == "toggles"@ || n == "on_off"@ {
        Ok(LayerActivationMode::Toggle)
    } else {
        Err(perr(ProfileErrorKind::UnknownActivationMode, n, Seq::empty()))
    }
}

/// Reads a layer activation mode: `hold` while the control is held, or
/// `toggle` on each press.
pub fn parse_activation_mode(value: &str) -> (r: Result<LayerActivationMode, ProfileError>)
    ensures
        match r {
            Ok(m) => activation_mode_of(value@) == Ok::<LayerActivationMode, ProfileErrorModel>(m),
            Err(e) => activation_mode_of(value@) == Err::<LayerActivationMode, ProfileErrorModel>(e@),
        },
{
    let n = normalize_keyword_str(value);
    if chars_eq_str(&n, "hold") || chars_eq_str(&n, "held") || chars_eq_str(&n, "momentary")
        || chars_eq_str(&n, "while_held") {
        Ok(LayerActivationMode::Hold)
    } else if chars_eq_str(&n, "toggle") || chars_eq_str(&n, "toggles") || chars_eq_str(&n, "on_off") {
        Ok(LayerActivationMode::Toggle)
    } else {
        let empty: Vec<char> = Vec::new();
        Err(fail(ProfileErrorKind::UnknownActivationMode, &n, &empty))
    }
}

/// The object form of a layer's activation.
#[derive(Clone, Debug, Default)]
pub struct RawLayerActivationObject {
    pub mode: Option<String>,
    pub control: Option<String>,
    pub from: Option<String>,
    pub source: Option<String>,
    pub button: Option<String>,
    pub hold: Option<String>,
    pub toggle: Option<String>,
    pub consume: Option<bool>,
}

/// A layer's activation: a bare control (held) or an object.
#[derive(Clone, Debug)]
pub enum RawLayerActivation {
    Scalar(String),
    Object(RawLayerActivationObject),
}

/// The mode, control text and consume flag an activation value gives:
/// `mode` (default hold) with `control`, `from`, `source` or `button`; `hold`
/// and then `toggle` override both; `consume` defaults to true.
pub open spec fn activation_fields(
    raw: RawLayerActivation,
    layer_id: Seq<char>,
) -> Result<(LayerActivationMode, Seq<char>, bool), ProfileErrorModel> {
    match raw {
        RawLayerActivation::Scalar(c) => Ok((LayerActivationMode::Hold, c@, true)),
        RawLayerActivation::Object(o) => {
            let mode0 = match o.mode {
                None => Ok(LayerActivationMode::Hold),
                Some(m) => activation_mode_of(m@),
            };
            match mode0 {
                Err(e) => Err(e),
                Ok(mode0) => {
                    let control0 = first_some(
                        first_some(first_some(opt_view(o.control), opt_view(o.from)), opt_view(o.source)),
                        opt_view(o.button),
                    );
                    let (mode1, control1) = match o.hold {
                        Some(h) => (LayerActivationMode::Hold, Some(h@)),
                        None => (mode0, control0),
                    };
                    let (mode2, control2) = match o.toggle {
                        Some(t) => (LayerActivationMode::Toggle, Some(t@)),
                        None => (mode1, control1),
                    };
                    match control2 {
                        None => Err(perr(ProfileErrorKind::LayerActivationControl, layer_id, Seq::empty())),
                        Some(c) => Ok(
                            (
                                mode2,
                                c,
                                match o.consume {
                                    Some(b) => b,
                                    None => true,
                                },
                            ),
                        ),
                    }
                },
            }
        },
    }
}

/// The activation of the shift layer `layer_id`.
pub open spec fn layer_activation_of(
    raw: RawLayerActivation,
    layer_id: Seq<char>,
) -> Result<LayerActivationModel, ProfileErrorModel> {
    match activation_fields(raw, layer_id) {
        Err(e) => Err(e),
        Ok((mode, control, consume)) => match parsed_event(control) {
            None => Err(
                perr_at(ProfileErrorKind::UnknownActivationControl, layer_id, Seq::empty(), control, 0),
            ),
            Some(code) => Ok(
                LayerActivationModel { mode, control: code, control_name: event_name(code), consume },
            ),
        },
    }
}

/// Reads the activation of the shift layer `layer_id` (see
/// [`layer_activation_of`]).
pub fn parse_layer_activation(raw: &RawLayerActivation, layer_id: &[char]) -> (r: Result<LayerActivation, ProfileError>)
    ensures
        match r {
            Ok(a) => layer_activation_of(*raw, layer_id@) == Ok::<LayerActivationModel, ProfileErrorModel>(a@),
            Err(e) => layer_activation_of(*raw, layer_id@) == Err::<LayerActivationModel, ProfileErrorModel>(e@),
        },
{
    let empty: Vec<char> = Vec::new();
    let (mode, control, consume): (LayerActivationMode, Vec<char>, bool) = match raw {
        RawLayerActivation::Scalar(c) => (LayerActivationMode::Hold, chars_of(c.as_str()), true),
        RawLayerActivation::Object(o) => {
            let mut mode = match &o.mode {
                None => LayerActivationMode::Hold,
                Some(m) => parse_activation_mode(m.as_str())?,
            };
            let mut control: Option<&String> = match &o.control {
                Some(c) => Some(c),
                None => match &o.from {
                    Some(c) => Some(c),
                    None => match &o.source {
                        Some(c) => Some(c),
                        None => match &o.button {
                            Some(c) => Some(c),
                            None => None,
                        },
                    },
                },
            };
            if let Some(h) = &o.hold {
                mode = LayerActivationMode::Hold;
                control = Some(h);
            }
            if let Some(t) = &o.toggle {
                mode = LayerActivationMode::Toggle;
                control = Some(t);
            }
            let consume = match o.consume {
                Some(b) => b,
                None => true,
            };
            match control {
                None => {
                    return Err(fail(ProfileErrorKind::LayerActivationControl, layer_id, &empty));
                },
                Some(c) => (mode, chars_of(c.as_str()), consume),
            }
        },
    };
    let text = string_from_chars(&control);
    let code = match parse_event_code(text.as_str()) {
        None => {
            return Err(fail_at(ProfileErrorKind::UnknownActivationControl, layer_id, &empty, &control, 0));
        },
        Some(c) => c,
    };
    Ok(LayerActivation { mode, control: code, control_name: code.name(), consume })
}

/// One layer as the document writes it.
#[derive(Clone, Debug)]
pub struct RawLayer {
    pub id: Option<String>,
    pub name: Option<String>,
    pub activation: Option<RawLayerActivation>,
    pub activator: Option<RawLayerActivation>,
    pub mappings: Option<Vec<RawMapping>>,
}

/// The layers read so far: the main layer's name and mappings, and the shift
/// layers in document order.
pub struct LayerState {
    pub main_name: Seq<char>,
    pub main_mappings: Seq<MappingModel>,
    pub shifts: Seq<LayerModel>,
}

/// `id` with each `_` written as a space.
pub open spec fn spaced(id: Seq<char>) -> Seq<char> {
    id.map_values(|c: char| if c == '_' { ' ' } else { c })
}

/// The id a layer at `index` (from 0) takes before normalizing: its `id`,
/// else its `name`, else `shift_<index + 1>`.
pub open spec fn layer_id_source(raw: RawLayer, index: nat) -> Seq<char> {
    match first_some(opt_view(raw.id), opt_view(raw.name)) {
        Some(s) => s,
        None => "shift_"@ + decimal(index + 1),
    }
}

/// Where the mappings of the layer `id` are reported.
pub open spec fn layer_context(id: Seq<char>) -> Seq<char> {
    "layer "@ + id + " mappings"@
}

/// Adds the layer at `index` to the layers read so far. A layer whose id is
/// `main` adds its mappings to the main layer, renames it, and may have no
/// activation; any other layer needs a fresh id and an activation.
pub open spec fn layer_step(st: LayerState, raw: RawLayer, index: nat) -> Result<LayerState, ProfileErrorModel> {
    match layer_id_of(layer_id_source(raw, index)) {
        Err(e) => Err(e),
        Ok(id) => {
            let name = match raw.name {
                Some(n) => n@,
                None => if id == "main"@ {
                    "Main"@
                } else {
                    spaced(id)
                },
            };
            let activation = first_some(raw.activation, raw.activator);
            match mappings_of(listed(raw.mappings), layer_context(id)) {
                Err(e) => Err(e),
                Ok(ms) => {
                    if id == "main"@ {
                        if activation is Some {
                            Err(perr(ProfileErrorKind::MainLayerActivation, Seq::empty(), Seq::empty()))
                        } else {
                            Ok(
                                LayerState {
                                    main_name: name,
                                    main_mappings: st.main_mappings + ms,
                                    shifts: st.shifts,
                                },
                            )
                        }
                    } else if exists|k: int| 0 <= k < st.shifts.len() && (#[trigger] st.shifts[k]).id == id {
                        Err(perr(ProfileErrorKind::DuplicateLayer, id, Seq::empty()))
                    } else {
                        match activation {
                            None => Err(perr(ProfileErrorKind::LayerRequiresActivation, id, Seq::empty())),
                            Some(a) => match layer_activation_of(a, id) {
                                Err(e) => Err(e),
                                Ok(act) => Ok(
                                    LayerState {
                                        main_name: st.main_name,
                                        main_mappings: st.main_mappings,
                                        shifts: st.shifts.push(
                                            LayerModel { id, name, activation: Some(act), mappings: ms },
                                        ),
                                    },
                                ),
                            },
                        }
                    }
                },
            }
        },
    }
}

/// The layers after reading `raws` in order, starting from `st`.
pub open spec fn layers_from(st: LayerState, raws: Seq<RawLayer>) -> Result<LayerState, ProfileErrorModel>
    decreases raws.len(),
{
    if raws.len() == 0 {
        Ok(st)
    } else {
        match layers_from(st, raws.drop_last()) {
            Err(e) => Err(e),
            Ok(prev) => layer_step(prev, raws.last(), (raws.len() - 1) as nat),
        }
    }
}

fn spaced_name(id: &[char]) -> (r: String)
    ensures
        r@ == spaced(id@),
{
    let mut out: Vec<char> = Vec::new();
    let mut i: usize = 0;
    while i < id.len()
        invariant
            i <= id@.len(),
            out@ == spaced(id@.subrange(0, i as int)),
        decreases id@.len() - i,
    {
        let c = id[i];
        out.push(if c == '_' { ' ' } else { c });
        assert(out@ =~= spaced(id@.subrange(0, i + 1)));
        i = i + 1;
    }
    assert(id@.subrange(0, id@.len() as int) =~= id@);
    string_from_chars(&out)
}

fn has_layer(shifts: &Vec<Layer>, id: &[char]) -> (r: bool)
    ensures
        r == exists|k: int| 0 <= k < layers_view(shifts@).len() && (#[trigger] layers_view(shifts@)[k]).id == id@,
{
    let mut i: usize = 0;
    while i < shifts.len()
        invariant
            i <= shifts@.len(),
            forall|k: int| 0 <= k < i ==> (#[trigger] layers_view(shifts@)[k]).id != id@,
        decreases shifts@.len() - i,
    {
        let l = chars_of(shifts[i].id.as_str());
        if crate::text::chars_eq(&l, id) {
            assert(layers_view(shifts@)[i as int].id == id@);
            return true;
        }
        i = i + 1;
    }
    false
}

/// The fallback id `shift_<n>`.
fn fallback_layer_id(n: usize) -> (r: String)
    ensures
        r@ == "shift_"@ + decimal(n as nat),
{
    let p = chars_of("shift_");
    let d = decimal_chars(n as u128);
    let all = concat_chars(&p, &d);
    string_from_chars(&all)
}

/// Reads the layer at `index` into the main layer (`main_name`,
/// `main_mappings`) or the shift layers (see [`layer_step`]).
pub fn add_layer(
    main_name: &mut String,
    main_mappings: &mut Vec<Mapping>,
    shifts: &mut Vec<Layer>,
    raw: &RawLayer,
    index: usize,
) -> (r: Result<(), ProfileError>)
    requires
        index < usize::MAX,
    ensures
        match r {
            Ok(_) => layer_step(
                LayerState {
                    main_name: old(main_name)@,
                    main_mappings: mappings_view(old(main_mappings)@),
                    shifts: layers_view(old(shifts)@),
                },
                *raw,
                index as nat,
            ) == Ok::<LayerState, ProfileErrorModel>(
                LayerState {
                    main_name: final(main_name)@,
                    main_mappings: mappings_view(final(main_mappings)@),
                    shifts: layers_view(final(shifts)@),
                },
            ),
            Err(e) => layer_step(
                LayerState {
                    main_name: old(main_name)@,
                    main_mappings: mappings_view(old(main_mappings)@),
                    shifts: layers_view(old(shifts)@),
                },
                *raw,
                index as nat,
            ) == Err::<LayerState, ProfileErrorModel>(e@),
        },
{
    let source: String = match &raw.id {
        Some(s) => s.clone(),
        None => match &raw.name {
            Some(s) => s.clone(),
            None => fallback_layer_id(index + 1),
        },
    };
    assert(source@ == layer_id_source(*raw, index as nat));
    let id = normalize_layer_id(source.as_str())?;
    let id_chars = chars_of(id.as_str());
    let is_main = chars_eq_str(&id_chars, "main");
    let name = match &raw.name {
        Some(n) => n.clone(),
        None => if is_main {
            "Main".to_owned()
        } else {
            spaced_name(&id_chars)
        },
    };
    let activation = if raw.activation.is_some() {
        &raw.activation
    } else {
        &raw.activator
    };
    let mut context = chars_of("layer ");
    context = concat_chars(&context, &id_chars);
    let tail = chars_of(" mappings");
    context = concat_chars(&context, &tail);
    assert(context@ == layer_context(id@));
    let mut ms = parse_mappings(&raw.mappings, &context)?;
    let empty: Vec<char> = Vec::new();
    if is_main {
        if activation.is_some() {
            return Err(fail(ProfileErrorKind::MainLayerActivation, &empty, &empty));
        }
        let ghost before = mappings_view(main_mappings@);
        let ghost added = mappings_view(ms@);
        *main_name = name;
        main_mappings.append(&mut ms);
        assert(mappings_view(main_mappings@) =~= before + added);
        return Ok(());
    }
    if has_layer(shifts, &id_chars) {
        return Err(fail(ProfileErrorKind::DuplicateLayer, &id_chars, &empty));
    }
    let a = match activation {
        None => {
            return Err(fail(ProfileErrorKind::LayerRequiresActivation, &id_chars, &empty));
        },
        Some(a) => a,
    };
    let act = parse_layer_activation(a, &id_chars)?;
    let layer = Layer { id, name, activation: Some(act), mappings: ms };
    let ghost before = layers_view(shifts@);
    shifts.push(layer);
    assert(layers_view(shifts@) =~= before.push(layer@));
    Ok(())
}

} // verus!
