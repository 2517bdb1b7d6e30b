//! What contracts see of a value is what it holds, field by field.

use crate::cli::Order;
use crate::client::{messages, snapshots, DeviceSnapshot};
use crate::config::{HassConfig, MqttConfig};
use crate::coordinator::{effects, CoordinatorMsg, Effect, EffectView, MsgView};
use crate::db::{records, Database, DeviceRecord};
use crate::discovery::DeviceIdentity;
use crate::mqtt::{ConnState, ConnView, IncomingPublish, Publish};
use crate::store::{DbError, DbErrorView};
use crate::text::texts;
use vstd::prelude::*;
use vstd::string::*;

verus! {

/// The text inside an option.
pub open spec fn opt(o: Option<String>) -> Option<Seq<char>> {
    match o {
        Some(s) => Some(s@),
        None => None,
    }
}

/// A record.
pub proof fn law_record_view(r: DeviceRecord)
    ensures
        r@.slug == r.slug@,
        r@.name == r.name@,
        r@.unique_id == opt(r.unique_id),
        r@.bus == r.bus,
        r@.vendor == r.vendor,
        r@.product == r.product,
        r@.version == r.version,
        r@.physical_path == opt(r.physical_path),
        r@.capability_fingerprint == opt(r.capability_fingerprint),
        r@.capability_tag == opt(r.capability_tag),
        r@.enabled == r.enabled,
        r@.observed_keys == r.observed_keys@,
{
}

/// A database is its records, in order.
pub proof fn law_database_view(db: Database, i: int)
    requires
        0 <= i < db.devices@.len(),
    ensures
        db@.len() == db.devices@.len(),
        db@[i] == db.devices@[i]@,
{
}

/// An identity.
pub proof fn law_identity_view(id: DeviceIdentity)
    ensures
        id@.path == id.path@,
        id@.name == id.name@,
        id@.unique_id == opt(id.unique_id),
        id@.bus == id.bus,
        id@.vendor == id.vendor,
        id@.product == id.product,
        id@.version == id.version,
        id@.physical_path == opt(id.physical_path),
        id@.has_keys == id.has_keys,
        id@.capability_fingerprint == id.capability_fingerprint@,
        id@.capability_tag == id.capability_tag@,
{
}

/// Messages, sent and received.
pub proof fn law_message_views(p: Publish, m: IncomingPublish)
    ensures
        p@.topic == p.topic@,
        p@.payload == p.payload@,
        p@.retain == p.retain,
        m@.topic == m.topic@,
        m@.payload == m.payload@,
        m@.retain == m.retain,
{
}

/// An effect.
pub proof fn law_effect_view(e: Effect)
    ensures
        match e {
            Effect::Persist => e@ == EffectView::Persist,
            Effect::Publish(p) => e@ == EffectView::Publish(p@),
            Effect::StartMonitor { slug, action_topic, identity } => e@
                == (EffectView::StartMonitor {
                slug: slug@,
                action_topic: action_topic@,
                identity: identity@,
            }),
            Effect::StopMonitor { slug } => e@ == (EffectView::StopMonitor { slug: slug@ }),
            Effect::ReleaseMonitor { slug } => e@ == (EffectView::ReleaseMonitor { slug: slug@ }),
        },
{
}

/// Effects, in order.
pub proof fn law_effects_view(all: Seq<Effect>, i: int)
    requires
        0 <= i < all.len(),
    ensures
        effects(all).len() == all.len(),
        effects(all)[i] == all[i]@,
{
}

/// A message to the coordinator.
pub proof fn law_task_message_view(m: CoordinatorMsg)
    ensures
        match m {
            CoordinatorMsg::DeviceConnected(id) => m@ == MsgView::DeviceConnected(id@),
            CoordinatorMsg::DeviceDisconnected { slug } => m@ == (MsgView::DeviceDisconnected {
                slug: slug@,
            }),
            CoordinatorMsg::KeyObserved { slug, code } => m@ == (MsgView::KeyObserved {
                slug: slug@,
                code,
            }),
            CoordinatorMsg::EnableCommand { slug, on } => m@ == (MsgView::EnableCommand {
                slug: slug@,
                on,
            }),
            CoordinatorMsg::RemoveCommand { slug } => m@ == (MsgView::RemoveCommand {
                slug: slug@,
            }),
        },
{
}

/// Settings.
pub proof fn law_setting_views(m: MqttConfig, h: HassConfig)
    ensures
        m@.host == m.host@,
        m@.port == m.port,
        m@.username == opt(m.username),
        m@.password == opt(m.password),
        m@.topic_prefix == m.topic_prefix@,
        m@.client_id_prefix == m.client_id_prefix@,
        m@.keepalive_secs == m.keepalive_secs,
        h@.enabled == h.enabled,
        h@.discovery_prefix == h.discovery_prefix@,
        h@.name == h.name@,
{
}

/// Snapshots, in order.
pub proof fn law_snapshot_view(all: Seq<DeviceSnapshot>, i: int)
    requires
        0 <= i < all.len(),
    ensures
        snapshots(all).len() == all.len(),
        snapshots(all)[i] == all[i]@,
        all[i]@.slug == all[i].slug@,
        all[i]@.name == all[i].name@,
        all[i]@.unique_id == opt(all[i].unique_id),
        all[i]@.bus == all[i].bus,
        all[i]@.vendor == all[i].vendor,
        all[i]@.product == all[i].product,
        all[i]@.version == all[i].version,
        all[i]@.enabled == all[i].enabled,
{
}

/// A state of the connection.
pub proof fn law_state_view(s: ConnState)
    ensures
        match s {
            ConnState::Connecting => s@ == ConnView::Connecting,
            ConnState::Connected => s@ == ConnView::Connected,
            ConnState::PermanentFailure(reason) => s@ == ConnView::PermanentFailure(reason@),
        },
{
}

/// An error.
pub proof fn law_error_view(e: DbError)
    ensures
        match e {
            DbError::Read { path, reason } => e@ == (DbErrorView::Read {
                path: path@,
                reason: reason@,
            }),
            DbError::Write { path, reason } => e@ == (DbErrorView::Write {
                path: path@,
                reason: reason@,
            }),
            DbError::Parse { path, reason } => e@ == (DbErrorView::Parse {
                path: path@,
                reason: reason@,
            }),
        },
{
}

/// An order.
pub proof fn law_order_view(o: Order)
    ensures
        o@.publish == o.publish@,
        o@.confirmation == o.confirmation@,
{
}

/// Texts, messages and records, in order.
pub proof fn law_list_views(
    all: Seq<String>,
    msgs: Seq<IncomingPublish>,
    devs: Seq<DeviceRecord>,
    i: int,
)
    ensures
        0 <= i < all.len() ==> texts(all).len() == all.len() && texts(all)[i] == all[i]@,
        0 <= i < msgs.len() ==> messages(msgs).len() == msgs.len() && messages(msgs)[i]
            == msgs[i]@,
        0 <= i < devs.len() ==> records(devs).len() == devs.len() && records(devs)[i] == devs[i]@,
{
}

/// What is copied is the same.
pub proof fn law_copies(
    r: DeviceRecord,
    r2: DeviceRecord,
    id: DeviceIdentity,
    id2: DeviceIdentity,
    m: MqttConfig,
    m2: MqttConfig,
    h: HassConfig,
    h2: HassConfig,
    db: Database,
    db2: Database,
)
    requires
        call_ensures(DeviceRecord::clone, (&r,), r2),
        call_ensures(DeviceIdentity::clone, (&id,), id2),
        call_ensures(MqttConfig::clone, (&m,), m2),
        call_ensures(HassConfig::clone, (&h,), h2),
        call_ensures(Database::clone, (&db,), db2),
    ensures
        r2@ == r@,
        id2@ == id@,
        m2@ == m@,
        h2@ == h@,
        db2@ == db@,
{
}

} // verus!
