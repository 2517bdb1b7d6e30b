//! Keys: their names, and what is told of them.

use crate::behaviour::words::{lemma_decimal, number_of};
use crate::coordinator::CoordinatorMsg;
use crate::hass::{event_payload, key_code_text, key_label, key_name, key_name_from};
use crate::monitor::{
    evdev_value_to_action, is_disconnect, key_event, run_device, DeviceEvent, DeviceStep,
};
use crate::slug::key_slug;
use crate::text::decimal;
use crate::topics::Action;
use vstd::prelude::*;
use vstd::string::*;
use vstd::utf8::encode_utf8;

verus! {

/// Whether `s` begins with `KEY_` or `BTN_`.
pub open spec fn is_key_name(s: Seq<char>) -> bool {
    s.len() >= 4 && s[3] == '_' && ((s[0] == 'K' && s[1] == 'E' && s[2] == 'Y') || (s[0] == 'B'
        && s[1] == 'T' && s[2] == 'N'))
}

proof fn lemma_key_label(code: u16, shown: Seq<char>)
    ensures
        is_key_name(shown) ==> key_label(code, shown) == shown,
        !is_key_name(shown) ==> {
            &&& key_label(code, shown).take(4) == seq!['K', 'E', 'Y', '_']
            &&& key_label(code, shown).len() > 4
            &&& key_label(code, shown).skip(4) == decimal(code as nat)
        },
{
    reveal_strlit("KEY_");
    reveal_strlit("BTN_");
    assert("KEY_"@ =~= seq!['K', 'E', 'Y', '_']);
    assert("BTN_"@ =~= seq!['B', 'T', 'N', '_']);
    if shown.len() >= 4 {
        let head = shown.take(4);
        assert(head[0] == shown[0] && head[1] == shown[1] && head[2] == shown[2] && head[3]
            == shown[3]);
        if is_key_name(shown) {
            assert(head =~= "KEY_"@ || head =~= "BTN_"@);
        }
    }
    if !is_key_name(shown) {
        lemma_decimal(code as nat);
        let s = key_label(code, shown);
        assert(s == "KEY_"@ + decimal(code as nat));
        assert(s.take(4) =~= "KEY_"@);
        assert(s.skip(4) =~= decimal(code as nat));
    }
}

/// A key goes by its symbolic name, and by `KEY_` and its number if it has none.
pub proof fn law_key_name(code: u16, shown: String, out: String)
    requires
        call_ensures(key_name_from, (code, shown), out),
    ensures
        is_key_name(shown@) ==> out@ == shown@,
        !is_key_name(shown@) ==> out@.take(4) == seq!['K', 'E', 'Y', '_'] && number_of(out@.skip(4))
            == code && (out@[4] == '0' ==> out@.len() == 5),
{
    lemma_key_label(code, shown@);
    if !is_key_name(shown@) {
        lemma_decimal(code as nat);
        assert(out@.skip(4)[0] == out@[4]);
    }
}

/// The symbolic name is the one that `evdev` shows.
pub proof fn law_key_name_of_code(code: u16, shown: String, out: String, named: String)
    requires
        call_ensures(key_name, (code,), out),
        shown@ == key_code_text(code),
        call_ensures(key_name_from, (code, shown), named),
    ensures
        out@ == named@,
{
}

/// An event is the key's slug and what happened, with an underscore between.
pub proof fn law_event_payload(kslug: &str, action: Action, out: String)
    requires
        call_ensures(event_payload, (kslug, action), out),
    ensures
        action is Press ==> out@ == kslug@ + "_press"@,
        action is Release ==> out@ == kslug@ + "_release"@,
{
    lemma_event_words(kslug@);
}

proof fn lemma_event_words(kslug: Seq<char>)
    ensures
        kslug + "_"@ + "press"@ == kslug + "_press"@,
        kslug + "_"@ + "release"@ == kslug + "_release"@,
{
    reveal_strlit("_");
    reveal_strlit("press");
    reveal_strlit("release");
    reveal_strlit("_press");
    reveal_strlit("_release");
    assert(kslug + "_"@ + "press"@ =~= kslug + "_press"@);
    assert(kslug + "_"@ + "release"@ =~= kslug + "_release"@);
}

/// One is a press and zero a release; anything else, autorepeat among it, is
/// neither.
pub proof fn law_phase(value: i32, out: Option<Action>)
    requires
        call_ensures(evdev_value_to_action, (value,), out),
    ensures
        value == 1 ==> out == Some(Action::Press),
        value == 0 ==> out == Some(Action::Release),
        value != 0 && value != 1 ==> out is None,
{
}

/// A device is gone when the system says that it, or its address, does not exist.
pub proof fn law_is_disconnect(errno: Option<i32>, yes: bool)
    requires
        call_ensures(is_disconnect, (errno,), yes),
    ensures
        yes <==> errno == Some(19i32) || errno == Some(6i32),
{
}

/// A press or a release is published on the action topic, not retained, as the
/// slug of the key's name and what happened; and the coordinator is told which key
/// it was. Anything else about a key is passed over.
pub proof fn law_key_event(
    topic: &str,
    slug: &str,
    code: u16,
    shown: &str,
    value: i32,
    out: DeviceStep,
    shown_text: String,
    name: String,
    name_text: &str,
    kslug: String,
)
    requires
        call_ensures(key_event, (topic, slug, code, shown, value), out),
        shown_text@ == shown@,
        call_ensures(key_name_from, (code, shown_text), name),
        name_text@ == name@,
        call_ensures(key_slug, (name_text,), kslug),
    ensures
        value == 0 || value == 1 ==> {
            &&& out.publish matches Some(p) && p.topic@ == topic@ && !p.retain && p.payload@
                == encode_utf8(
                kslug@ + if value == 1 {
                    "_press"@
                } else {
                    "_release"@
                },
            )
            &&& out.tell matches Some(CoordinatorMsg::KeyObserved { slug: s, code: c }) && s@
                == slug@ && c == code
        },
        value != 0 && value != 1 ==> out.publish is None && out.tell is None,
        !out.exit,
{
    lemma_event_words(kslug@);
    if let Some(p) = out.publish {
        assert(p@ == crate::monitor::key_publish(topic@, code, shown@, value)->0);
    }
    if let Some(m) = out.tell {
        assert(m@ == (crate::coordinator::MsgView::KeyObserved { slug: slug@, code }));
    }
}

/// The events of a device's keys are worded by what `evdev` shows for them.
pub proof fn law_run_device_keys(
    topic: &str,
    slug: &str,
    code: u16,
    value: i32,
    out: DeviceStep,
    shown: &str,
    same: DeviceStep,
)
    requires
        call_ensures(run_device, (topic, slug, &DeviceEvent::Key { code, value }), out),
        shown@ == key_code_text(code),
        call_ensures(key_event, (topic, slug, code, shown, value), same),
    ensures
        out.publish is Some == same.publish is Some,
        out.publish matches Some(p) ==> (same.publish matches Some(q) && p.topic@ == q.topic@
            && p.payload@ == q.payload@ && p.retain == q.retain),
        (value == 0 || value == 1) ==> (out.tell matches Some(
            CoordinatorMsg::KeyObserved { slug: s, code: c },
        ) && s@ == slug@ && c == code),
        (value != 0 && value != 1) ==> out.tell is None,
        !out.exit,
{
    assert(crate::monitor::opt_publish(out.publish) == crate::monitor::opt_publish(same.publish));
    if let Some(p) = out.publish {
        assert(p@ == same.publish->0@);
    }
    if let Some(m) = out.tell {
        assert(m@ == (crate::coordinator::MsgView::KeyObserved { slug: slug@, code }));
    }
}

/// A monitor that loses its device says so and exits; one that is asked to exit
/// does so in silence; other events are passed over.
pub proof fn law_run_device(topic: &str, slug: &str, event: DeviceEvent, out: DeviceStep)
    requires
        call_ensures(run_device, (topic, slug, &event), out),
        event !is Key,
    ensures
        out.publish is None,
        event is Shutdown ==> out.exit && out.tell is None,
        event is Other ==> !out.exit && out.tell is None,
        event is OpenFailed || event is StreamFailed || event is ReadError || event is Ended ==> {
            &&& out.exit
            &&& out.tell matches Some(CoordinatorMsg::DeviceDisconnected { slug: s }) && s@ == slug@
        },
        out.ordinary <==> match event {
            DeviceEvent::OpenFailed | DeviceEvent::StreamFailed => false,
            DeviceEvent::ReadError { errno } => errno == Some(19i32) || errno == Some(6i32),
            _ => true,
        },
{
    if let Some(m) = out.tell {
        assert(m@ == (crate::coordinator::MsgView::DeviceDisconnected { slug: slug@ }));
    }
}

} // verus!
