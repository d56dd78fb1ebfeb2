use vstd::prelude::*;
use crate::manager::{SceneInstance, SceneManager, spec_first_sound};
use crate::osc::{
    DecodedMessage, MessageView, Property, TypedValue, ValueView, get_property,
    lemma_msgs_view_index, parse_properties, props_view, spec_lookup, spec_properties, vals_view,
};
use crate::scene::spec_invoke;
use crate::sound::DirtSound;
use crate::spectrum::{SPECTRUM_OFFSET, Spectrum};

verus! {

/// The address of a trigger-play message.
pub open spec fn dirt_play_addr() -> Seq<char> {
    "/dirt/play"@
}

/// The address of a spectrum message.
pub open spec fn freq_addr() -> Seq<char> {
    "/freq"@
}

/// The sound name under the `s` property of a trigger message's argument
/// list, if the properties hold one and it is a string.
pub open spec fn spec_trigger_name(args: Seq<ValueView>) -> Option<Seq<char>> {
    match spec_lookup(spec_properties(args, 0), "s"@) {
        Some(v) => if v is Str {
            Some(v->Str_0)
        } else {
            None
        },
        None => None,
    }
}

/// The blob carried by a spectrum message: its first argument, when that
/// argument exists and is a blob.
pub open spec fn spec_freq_blob(args: Seq<ValueView>) -> Option<Seq<u8>> {
    if args.len() >= 1 && args[0] is Blob {
        Some(args[0]->Blob_0)
    } else {
        None
    }
}

/// How a trigger-play argument list acts on the registry: the first scene
/// bound to the `s` sound name is invoked; without a usable `s` property,
/// or with a name bound to no scene, nothing changes.
pub open spec fn spec_dirt_applied(
    args: Seq<ValueView>,
    before: Seq<SceneInstance>,
    after: Seq<SceneInstance>,
) -> bool {
    match spec_trigger_name(args) {
        Some(name) => match spec_first_sound(before, name, 0) {
            Some(i) => after == before.update(i, (SceneInstance {
                instance: spec_invoke(before[i].instance),
                ..before[i]
            })),
            None => after == before,
        },
        None => after == before,
    }
}

/// How a spectrum argument list acts on the snapshot: each byte of the
/// blob overwrites its bin with `byte - SPECTRUM_OFFSET`, further bins
/// keep their values; without a blob, nothing changes.
pub open spec fn spec_freq_applied(args: Seq<ValueView>, before: Seq<i32>, after: Seq<i32>) -> bool {
    &&& after.len() == before.len()
    &&& match spec_freq_blob(args) {
        Some(blob) => (forall|i: int|
            0 <= i < blob.len() && i < before.len() ==> after[i] == blob[i] - SPECTRUM_OFFSET)
            && (forall|i: int| blob.len() <= i < before.len() ==> after[i] == before[i]),
        None => after == before,
    }
}

/// Applies a trigger-play message's arguments to the registry: the `s`
/// property names the sound, and the scene bound to it is invoked. An
/// unknown or missing sound name is silently ignored.
pub fn handle_dirt(args: &Vec<TypedValue>, scenes: &mut SceneManager)
    ensures
        spec_dirt_applied(vals_view(args@), old(scenes)@, final(scenes)@),
{
    let props: Vec<Property> = parse_properties(args);
    match get_property(&props, "s") {
        Some(v) => match v {
            TypedValue::Str(t) => {
                let sound = DirtSound::new(t.as_str());
                scenes.dispatch_trigger(&sound);
            },
            _ => {},
        },
        None => {},
    }
}

/// Applies a spectrum message's arguments to the snapshot: the first
/// argument's blob overwrites the bins element-wise. A message without a
/// blob is ignored.
pub fn handle_freq(args: &Vec<TypedValue>, freqscope: &mut Spectrum)
    requires
        old(freqscope).wf(),
    ensures
        final(freqscope).wf(),
        spec_freq_applied(vals_view(args@), old(freqscope)@, final(freqscope)@),
{
    if args.len() >= 1 {
        match &args[0] {
            TypedValue::Blob(blob) => {
                freqscope.apply_blob(blob);
            },
            _ => {},
        }
    }
}

/// Routes one decoded packet, as the frame loop's single poll sees it. A
/// bundle is inspected only at its first element: if that is a message on
/// the trigger-play address, it drives the registry. A bare message on the
/// spectrum address overwrites the snapshot. Everything else is ignored.
pub fn handle_event(packet: &DecodedMessage, freqscope: &mut Spectrum, scenes: &mut SceneManager)
    requires
        old(freqscope).wf(),
    ensures
        final(freqscope).wf(),
        match packet@ {
            MessageView::Bundle { content } => {
                &&& final(freqscope)@ == old(freqscope)@
                &&& if content.len() > 0 && content[0] is Single && content[0]->Single_addr
                    == dirt_play_addr() {
                    spec_dirt_applied(content[0]->Single_args, old(scenes)@, final(scenes)@)
                } else {
                    *final(scenes) == *old(scenes)
                }
            },
            MessageView::Single { addr, args } => {
                &&& *final(scenes) == *old(scenes)
                &&& if addr == freq_addr() {
                    spec_freq_applied(args, old(freqscope)@, final(freqscope)@)
                } else {
                    final(freqscope)@ == old(freqscope)@
                }
            },
        },
{
    match packet {
        DecodedMessage::Bundle { content } => {
            proof {
                lemma_msgs_view_index(content@);
            }
            if content.len() > 0 {
                match &content[0] {
                    DecodedMessage::Single { addr, args } => {
                        let dirt: String = String::from_str("/dirt/play");
                        if *addr == dirt {
                            handle_dirt(args, scenes);
                        }
                    },
                    _ => {},
                }
            }
        },
        DecodedMessage::Single { addr, args } => {
            let freq: String = String::from_str("/freq");
            if *addr == freq {
                handle_freq(args, freqscope);
            }
        },
    }
}

} // verus!
