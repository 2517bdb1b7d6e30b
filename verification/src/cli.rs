//! What the management commands send and print.

use crate::client::{snapshots, Client, DeviceSnapshot, SnapshotView};
use crate::mqtt::{clearing, text_publish, Publish, PublishView};
use crate::text::{hex, hex_text, texts};
use crate::topics::{enabled_topic_text, PAYLOAD_DISABLED, PAYLOAD_ENABLED};
use vstd::prelude::*;
use vstd::string::*;

verus! {

/// The text `tabled` lays out for rows of cells, in rounded style.
pub uninterp spec fn table_text(rows: Seq<Seq<Seq<char>>>) -> Seq<char>;

/// The texts in rows of cells.
pub open spec fn cells(rows: Seq<Vec<String>>) -> Seq<Seq<Seq<char>>> {
    rows.map_values(|r: Vec<String>| texts(r@))
}

/// `tabled`'s `Builder::from` on the rows, built and shown in `Style::rounded`:
/// the text is a function of the cells. How it looks is left to `tabled`.
#[verifier::external_body]
pub(crate) fn rounded_table(rows: Vec<Vec<String>>) -> (res: String)
    ensures
        res@ == table_text(cells(rows@)),
{
    let mut table = tabled::builder::Builder::from(rows).build();
    table.with(tabled::settings::Style::rounded());
    table.to_string()
}

/// A 16-bit number as `0x` and four digits.
pub open spec fn hex_word(n: u16) -> Seq<char> {
    "0x"@ + hex(n as nat, 4)
}

fn hex_word_text(n: u16) -> (out: String)
    ensures
        out@ == hex_word(n),
{
    let mut out: String = "0x".to_owned();
    out.append(hex_text(n as u64, 4).as_str());
    out
}

/// The column titles.
pub open spec fn titles() -> Seq<Seq<char>> {
    seq![
        "slug"@,
        "enabled"@,
        "name"@,
        "unique_id"@,
        "bus"@,
        "vendor"@,
        "product"@,
        "version"@,
    ]
}

/// The row of a device.
pub open spec fn row(d: SnapshotView) -> Seq<Seq<char>> {
    seq![
        d.slug,
        match d.enabled {
            Some(true) => "on"@,
            Some(false) => "off"@,
            None => "?"@,
        },
        d.name,
        match d.unique_id {
            Some(u) => u,
            None => "-"@,
        },
        hex_word(d.bus),
        hex_word(d.vendor),
        hex_word(d.product),
        hex_word(d.version),
    ]
}

/// The titles, and a row per device.
pub open spec fn table_rows(devices: Seq<SnapshotView>) -> Seq<Seq<Seq<char>>> {
    seq![titles()] + devices.map_values(|d: SnapshotView| row(d))
}

fn device_row(d: &DeviceSnapshot) -> (out: Vec<String>)
    ensures
        texts(out@) == row(d@),
{
    let enabled = match d.enabled {
        Some(true) => "on",
        Some(false) => "off",
        None => "?",
    };
    let unique_id: String = match &d.unique_id {
        Some(u) => u.clone(),
        None => "-".to_owned(),
    };
    let out = vec![
        d.slug.clone(),
        enabled.to_owned(),
        d.name.clone(),
        unique_id,
        hex_word_text(d.bus),
        hex_word_text(d.vendor),
        hex_word_text(d.product),
        hex_word_text(d.version),
    ];
    assert(texts(out@) =~= row(d@));
    out
}

/// The cells of the table of devices.
pub fn device_rows(devices: &Vec<DeviceSnapshot>) -> (out: Vec<Vec<String>>)
    ensures
        cells(out@) == table_rows(snapshots(devices@)),
{
    let head = vec![
        "slug".to_owned(),
        "enabled".to_owned(),
        "name".to_owned(),
        "unique_id".to_owned(),
        "bus".to_owned(),
        "vendor".to_owned(),
        "product".to_owned(),
        "version".to_owned(),
    ];
    assert(texts(head@) =~= titles());
    let mut out: Vec<Vec<String>> = vec![head];
    let mut i: usize = 0;
    assert(cells(out@) =~= table_rows(snapshots(devices@).take(0)));
    while i < devices.len()
        invariant
            i <= devices@.len(),
            cells(out@) == table_rows(snapshots(devices@).take(i as int)),
        decreases devices@.len() - i,
    {
        let ghost before = out@;
        out.push(device_row(&devices[i]));
        i += 1;
        proof {
            let all = snapshots(devices@);
            assert(all[i - 1] == devices@[i - 1]@);
            assert(all.take(i as int) =~= all.take(i - 1).push(all[i - 1]));
            assert(cells(out@) =~= cells(before).push(row(all[i - 1])));
            assert(table_rows(all.take(i as int)) =~= table_rows(all.take(i - 1)).push(
                row(all[i - 1]),
            ));
        }
    }
    assert(snapshots(devices@).take(i as int) =~= snapshots(devices@));
    out
}

/// What `--list-devices` prints.
pub fn list_devices(host: &str, devices: &Vec<DeviceSnapshot>) -> (out: String)
    ensures
        out@ == if devices@.len() == 0 {
            "no devices known to "@ + host@
        } else {
            table_text(table_rows(snapshots(devices@)))
        },
{
    if devices.len() == 0 {
        let mut out: String = "no devices known to ".to_owned();
        out.append(host);
        return out;
    }
    rounded_table(device_rows(devices))
}

/// A message to send, and what to print once it is sent.
#[derive(Debug)]
pub struct Order {
    pub publish: Publish,
    pub confirmation: String,
}

/// The values in an [`Order`].
pub struct OrderView {
    pub publish: PublishView,
    pub confirmation: Seq<char>,
}

impl View for Order {
    type V = OrderView;

    open spec fn view(&self) -> OrderView {
        OrderView { publish: self.publish@, confirmation: self.confirmation@ }
    }
}

/// The values in a list of orders.
pub open spec fn orders(out: Seq<Order>) -> Seq<OrderView> {
    out.map_values(|o: Order| o@)
}

/// What is asked of the devices.
#[derive(Clone, Copy, Debug)]
pub enum Verb {
    Enable,
    Disable,
    Remove,
}

/// The order that asks `verb` of the device `slug`.
pub open spec fn order(prefix: Seq<char>, verb: Verb, slug: Seq<char>) -> OrderView {
    let topic = enabled_topic_text(prefix, slug);
    match verb {
        Verb::Enable => OrderView {
            publish: text_publish(topic, PAYLOAD_ENABLED@, true),
            confirmation: "enabled"@ + " "@ + slug,
        },
        Verb::Disable => OrderView {
            publish: text_publish(topic, PAYLOAD_DISABLED@, true),
            confirmation: "disabled"@ + " "@ + slug,
        },
        Verb::Remove => OrderView {
            publish: clearing(topic),
            confirmation: "removed"@ + " "@ + slug,
        },
    }
}

fn order_for(client: &Client, verb: Verb, slug: &str) -> (out: Order)
    ensures
        out@ == order(client@, verb, slug@),
{
    let (done, publish) = match verb {
        Verb::Enable => ("enabled", client.enable_device(slug)),
        Verb::Disable => ("disabled", client.disable_device(slug)),
        Verb::Remove => ("removed", client.remove_device(slug)),
    };
    let mut confirmation: String = done.to_owned();
    confirmation.append(" ");
    confirmation.append(slug);
    Order { publish, confirmation }
}

fn orders_for(client: &Client, verb: Verb, slugs: &Vec<String>) -> (out: Vec<Order>)
    ensures
        orders(out@) == texts(slugs@).map_values(|s: Seq<char>| order(client@, verb, s)),
{
    let mut out: Vec<Order> = Vec::new();
    let mut i: usize = 0;
    while i < slugs.len()
        invariant
            i <= slugs@.len(),
            out@.len() == i,
            forall|j: int| 0 <= j < i ==> (#[trigger] out@[j])@ == order(client@, verb, slugs@[j]@),
        decreases slugs@.len() - i,
    {
        out.push(order_for(client, verb, slugs[i].as_str()));
        i += 1;
    }
    assert(orders(out@) =~= texts(slugs@).map_values(|s: Seq<char>| order(client@, verb, s)));
    out
}

/// The orders of `--enable-device`, one per slug.
pub fn enable_devices(client: &Client, slugs: &Vec<String>) -> (out: Vec<Order>)
    ensures
        orders(out@) == texts(slugs@).map_values(|s: Seq<char>| order(client@, Verb::Enable, s)),
{
    orders_for(client, Verb::Enable, slugs)
}

/// The orders of `--disable-device`, one per slug.
pub fn disable_devices(client: &Client, slugs: &Vec<String>) -> (out: Vec<Order>)
    ensures
        orders(out@) == texts(slugs@).map_values(|s: Seq<char>| order(client@, Verb::Disable, s)),
{
    orders_for(client, Verb::Disable, slugs)
}

/// The orders of `--remove-device`, one per slug.
pub fn remove_devices(client: &Client, slugs: &Vec<String>) -> (out: Vec<Order>)
    ensures
        orders(out@) == texts(slugs@).map_values(|s: Seq<char>| order(client@, Verb::Remove, s)),
{
    orders_for(client, Verb::Remove, slugs)
}

} // verus!
