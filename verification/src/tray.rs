//! The tray icon: the menu it shows, what a click on a menu entry asks for,
//! when the popup window hides again, and the icon's pixels.
use vstd::prelude::*;
use crate::commands::{AdbRequest, kill_server_request, request_view, start_server_request};
use crate::locale::{self, Locale, tray_text};
use crate::platform::Platform;
use crate::store::{AdbDevice, DeviceView, address_of, device_views};
use crate::text::{self, chars_of, owned, push_all, str_eq, str_starts_with, string_of_range};

verus! {

/// One clickable entry of the tray menu.
#[derive(Clone, Debug)]
pub struct TrayEntry {
    pub id: String,
    pub label: String,
    pub enabled: bool,
}

/// The model of an entry: its id, its label and whether it can be clicked.
pub open spec fn entry_view(e: TrayEntry) -> (Seq<char>, Seq<char>, bool) {
    (e.id@, e.label@, e.enabled)
}

/// The models of a list of entries.
pub open spec fn entry_views(v: Seq<TrayEntry>) -> Seq<(Seq<char>, Seq<char>, bool)> {
    v.map_values(|e: TrayEntry| entry_view(e))
}

/// A place in the tray menu, top to bottom.
#[derive(Clone, Debug)]
pub enum MenuSlot {
    /// The "Quick Connect" submenu with one entry per device.
    QuickConnect,
    Separator,
    Action(TrayEntry),
}

/// The model of a slot: `None` for the submenu, `Some(None)` for a
/// separator, `Some(Some(entry))` for an action.
pub open spec fn slot_view(s: MenuSlot) -> Option<Option<(Seq<char>, Seq<char>, bool)>> {
    match s {
        MenuSlot::QuickConnect => None,
        MenuSlot::Separator => Some(None),
        MenuSlot::Action(e) => Some(Some(entry_view(e))),
    }
}

/// The models of a list of slots.
pub open spec fn slot_views(v: Seq<MenuSlot>) -> Seq<Option<Option<(Seq<char>, Seq<char>, bool)>>> {
    v.map_values(|s: MenuSlot| slot_view(s))
}

/// The whole tray menu.
pub struct TrayMenu {
    /// The label of the "Quick Connect" submenu.
    pub quick_connect_title: String,
    /// The entries of that submenu.
    pub quick_connect: Vec<TrayEntry>,
    /// The menu itself, top to bottom.
    pub layout: Vec<MenuSlot>,
}

/// The status adb reports for a device that is attached.
pub open spec fn connected() -> Seq<char> {
    "connected"@
}

/// Whether adb reports the device attached.
pub open spec fn is_connected(d: DeviceView) -> bool {
    d.status == connected()
}

/// The entry of a device: it connects to the device's address; a connected
/// device is marked with a green dot and cannot be clicked.
pub open spec fn device_entry_of(d: DeviceView) -> (Seq<char>, Seq<char>, bool) {
    (
        "connect:"@ + address_of(d),
        (if is_connected(d) {
            "🟢 "@
        } else {
            ""@
        }) + d.name + " ("@ + address_of(d) + ")"@,
        !is_connected(d),
    )
}

/// The entries of the "Quick Connect" submenu: one per device, in order, or
/// a disabled placeholder when there are none.
pub open spec fn quick_connect_of(locale: Locale, ds: Seq<DeviceView>) -> Seq<
    (Seq<char>, Seq<char>, bool),
> {
    if ds.len() == 0 {
        seq![("no-devices"@, locale::tray_text_of(locale, "no_devices"@), false)]
    } else {
        ds.map_values(|d: DeviceView| device_entry_of(d))
    }
}

/// The menu, top to bottom: the submenu, a separator, restarting adb,
/// enabling TCP/IP, disconnecting all, a separator and quitting.
pub open spec fn layout_of(locale: Locale) -> Seq<Option<Option<(Seq<char>, Seq<char>, bool)>>> {
    seq![
        None,
        Some(None),
        Some(Some(("restart-adb"@, locale::tray_text_of(locale, "restart_adb"@), true))),
        Some(Some(("enable-tcpip"@, locale::tray_text_of(locale, "enable_tcpip"@), true))),
        Some(Some(("disconnect-all"@, locale::tray_text_of(locale, "disconnect_all"@), true))),
        Some(None),
        Some(Some(("quit"@, locale::tray_text_of(locale, "quit"@), true))),
    ]
}

/// An enabled action entry.
fn action(id: &str, label: String) -> (r: MenuSlot)
    ensures
        slot_view(r) == Some(Some((id@, label@, true))),
{
    MenuSlot::Action(TrayEntry { id: owned(id), label, enabled: true })
}

/// The entry of one device.
fn device_entry(d: &AdbDevice) -> (r: TrayEntry)
    ensures
        entry_view(r) == device_entry_of(d@),
{
    let address = d.address();
    let mut id = owned("connect:");
    push_all(&mut id, address.as_str());
    let on = str_eq(d.status.as_str(), "connected");
    let mut label = if on {
        owned("🟢 ")
    } else {
        String::new()
    };
    push_all(&mut label, d.name.as_str());
    push_all(&mut label, " (");
    push_all(&mut label, address.as_str());
    push_all(&mut label, ")");
    proof {
        reveal_strlit("");
        if !on {
            assert(label@ =~= ""@ + d@.name + " ("@ + address_of(d@) + ")"@);
        }
    }
    TrayEntry { id, label, enabled: !on }
}

/// The tray menu for `devices`, in the order given, with texts in `locale`.
pub fn build_tray_menu(locale: Locale, devices: &Vec<AdbDevice>) -> (r: TrayMenu)
    ensures
        r.quick_connect_title@ == locale::tray_text_of(locale, "quick_connect"@),
        entry_views(r.quick_connect@) == quick_connect_of(locale, device_views(devices@)),
        slot_views(r.layout@) == layout_of(locale),
{
    let mut entries: Vec<TrayEntry> = Vec::new();
    if devices.len() == 0 {
        let e = TrayEntry {
            id: owned("no-devices"),
            label: tray_text(locale, "no_devices"),
            enabled: false,
        };
        entries.push(e);
        assert(entry_views(entries@) =~= quick_connect_of(locale, device_views(devices@)));
    } else {
        let mut i: usize = 0;
        while i < devices.len()
            invariant
                i <= devices@.len(),
                entry_views(entries@) == device_views(devices@).map_values(
                    |d: DeviceView| device_entry_of(d),
                ).take(i as int),
            decreases devices@.len() - i,
        {
            let e = device_entry(&devices[i]);
            let ghost before = entries@;
            entries.push(e);
            assert(entry_views(entries@) =~= entry_views(before).push(entry_view(e)));
            assert(device_views(devices@).map_values(|d: DeviceView| device_entry_of(d)).take(
                i + 1,
            ) =~= device_views(devices@).map_values(|d: DeviceView| device_entry_of(d)).take(
                i as int,
            ).push(entry_view(e)));
            i = i + 1;
        }
        assert(device_views(devices@).map_values(|d: DeviceView| device_entry_of(d)).take(
            devices@.len() as int,
        ) =~= quick_connect_of(locale, device_views(devices@)));
    }
    let mut layout: Vec<MenuSlot> = Vec::new();
    layout.push(MenuSlot::QuickConnect);
    layout.push(MenuSlot::Separator);
    layout.push(action("restart-adb", tray_text(locale, "restart_adb")));
    layout.push(action("enable-tcpip", tray_text(locale, "enable_tcpip")));
    layout.push(action("disconnect-all", tray_text(locale, "disconnect_all")));
    layout.push(MenuSlot::Separator);
    layout.push(action("quit", tray_text(locale, "quit")));
    assert(slot_views(layout@) =~= layout_of(locale));
    TrayMenu { quick_connect_title: tray_text(locale, "quick_connect"), quick_connect: entries, layout }
}

/// Whether a device is pinned.
pub open spec fn pinned_pred() -> spec_fn(DeviceView) -> bool {
    |d: DeviceView| d.pinned
}

/// Whether a device is not pinned.
pub open spec fn unpinned_pred() -> spec_fn(DeviceView) -> bool {
    |d: DeviceView| !d.pinned
}

/// Whether a device is connected.
pub open spec fn connected_pred() -> spec_fn(DeviceView) -> bool {
    |d: DeviceView| is_connected(d)
}

/// The order of the devices in the tray: pinned ones first, each group in
/// the order they are stored.
pub open spec fn tray_order_of(ds: Seq<DeviceView>) -> Seq<DeviceView> {
    ds.filter(pinned_pred()) + ds.filter(unpinned_pred())
}

/// Filtering one more element of a prefix.
proof fn lemma_filter_take_step(s: Seq<DeviceView>, p: spec_fn(DeviceView) -> bool, i: int)
    requires
        0 <= i < s.len(),
    ensures
        s.take(i + 1).filter(p) == (if p(s[i]) {
            s.take(i).filter(p).push(s[i])
        } else {
            s.take(i).filter(p)
        }),
{
    reveal(Seq::filter);
    assert(s.take(i + 1).drop_last() =~= s.take(i));
    assert(s.take(i + 1).last() == s[i]);
}

/// Appends, in order, the devices of `devices` that `keep` holds of.
fn push_where(out: &mut Vec<AdbDevice>, devices: &Vec<AdbDevice>, pinned: bool)
    ensures
        device_views(final(out)@) == device_views(old(out)@) + device_views(devices@).filter(
            if pinned {
                pinned_pred()
            } else {
                unpinned_pred()
            },
        ),
{
    let ghost p = if pinned {
        pinned_pred()
    } else {
        unpinned_pred()
    };
    let ghost start = device_views(out@);
    let ghost ds = device_views(devices@);
    let mut i: usize = 0;
    while i < devices.len()
        invariant
            i <= devices@.len(),
            ds == device_views(devices@),
            p == (if pinned {
                pinned_pred()
            } else {
                unpinned_pred()
            }),
            device_views(out@) == start + ds.take(i as int).filter(p),
        decreases devices@.len() - i,
    {
        proof {
            lemma_filter_take_step(ds, p, i as int);
        }
        if devices[i].pinned == pinned {
            let d = devices[i].duplicate();
            let ghost before = out@;
            out.push(d);
            assert(device_views(out@) =~= device_views(before).push(d@));
            assert(p(ds[i as int]));
            assert(device_views(out@) =~= start + ds.take(i + 1).filter(p));
        } else {
            assert(!p(ds[i as int]));
        }
        i = i + 1;
    }
    assert(ds.take(devices@.len() as int) =~= ds);
}

/// The devices in the order the tray lists them: pinned ones first, keeping
/// the stored order within each group.
pub fn tray_order(devices: &Vec<AdbDevice>) -> (r: Vec<AdbDevice>)
    ensures
        device_views(r@) == tray_order_of(device_views(devices@)),
{
    let mut out: Vec<AdbDevice> = Vec::new();
    push_where(&mut out, devices, true);
    push_where(&mut out, devices, false);
    assert(device_views(out@) =~= tray_order_of(device_views(devices@)));
    out
}

/// How many devices are connected.
pub fn connected_count(devices: &Vec<AdbDevice>) -> (r: usize)
    ensures
        r == device_views(devices@).filter(connected_pred()).len(),
{
    let ghost ds = device_views(devices@);
    let mut n: usize = 0;
    let mut i: usize = 0;
    while i < devices.len()
        invariant
            i <= devices@.len(),
            ds == device_views(devices@),
            n == ds.take(i as int).filter(connected_pred()).len(),
            n <= i,
        decreases devices@.len() - i,
    {
        proof {
            lemma_filter_take_step(ds, connected_pred(), i as int);
        }
        if str_eq(devices[i].status.as_str(), "connected") {
            n = n + 1;
        }
        i = i + 1;
    }
    assert(ds.take(devices@.len() as int) =~= ds);
    n
}

/// The menu the tray shows after a change: the devices reordered, pinned
/// first, and how many are connected.
pub fn rebuild_tray_menu(locale: Locale, devices: &Vec<AdbDevice>) -> (r: (TrayMenu, usize))
    ensures
        r.0.quick_connect_title@ == locale::tray_text_of(locale, "quick_connect"@),
        entry_views(r.0.quick_connect@) == quick_connect_of(
            locale,
            tray_order_of(device_views(devices@)),
        ),
        slot_views(r.0.layout@) == layout_of(locale),
        r.1 == device_views(devices@).filter(connected_pred()).len(),
{
    let ordered = tray_order(devices);
    let menu = build_tray_menu(locale, &ordered);
    (menu, connected_count(devices))
}

/// What a click on a tray menu entry asks for.
#[derive(Clone, Debug)]
pub enum TrayAction {
    Quit,
    RestartAdb,
    EnableTcpip,
    /// Disconnect every saved device, as the window's "disconnect all" does.
    DisconnectAll,
    /// Connect to the device at this address.
    Connect(String),
    /// Nothing to do.
    Ignore,
}

/// The address an entry id of the form `connect:<address>` names.
pub open spec fn connect_target(id: Seq<char>) -> Option<Seq<char>> {
    if text::starts_with(id, "connect:"@) {
        Some(id.skip(8))
    } else {
        None
    }
}

/// What a click on the entry with id `id` asks for.
pub fn menu_action(id: &str) -> (r: TrayAction)
    ensures
        match r {
            TrayAction::Quit => id@ == "quit"@,
            TrayAction::RestartAdb => id@ == "restart-adb"@,
            TrayAction::EnableTcpip => id@ == "enable-tcpip"@,
            TrayAction::DisconnectAll => id@ == "disconnect-all"@,
            TrayAction::Connect(a) => connect_target(id@) == Some(a@),
            TrayAction::Ignore => id@ != "quit"@ && id@ != "restart-adb"@ && id@ != "enable-tcpip"@
                && id@ != "disconnect-all"@ && connect_target(id@) is None,
        },
{
    if str_eq(id, "quit") {
        TrayAction::Quit
    } else if str_eq(id, "restart-adb") {
        TrayAction::RestartAdb
    } else if str_eq(id, "enable-tcpip") {
        TrayAction::EnableTcpip
    } else if str_eq(id, "disconnect-all") {
        TrayAction::DisconnectAll
    } else {
        let v = chars_of(id);
        if str_starts_with(&v, "connect:") {
            proof {
                reveal_strlit("connect:");
            }
            let a = string_of_range(&v, 8, v.len());
            assert(a@ =~= id@.skip(8));
            TrayAction::Connect(a)
        } else {
            TrayAction::Ignore
        }
    }
}

/// What the tray tells the user once an action has run: the notification
/// text's key, and the event sent to the window, if any.
#[derive(Clone, Copy, Debug, PartialEq, Eq)]
pub struct TrayReport {
    pub notify_key: &'static str,
    pub event: Option<&'static str>,
}

/// The model of a report.
pub open spec fn report_view(r: TrayReport) -> (Seq<char>, Option<Seq<char>>) {
    (r.notify_key@, match r.event {
        Some(e) => Some(e@),
        None => None,
    })
}

/// The two commands of a restart of the adb server, in order.
#[derive(Clone, Copy, Debug, PartialEq, Eq, Structural)]
pub enum RestartStage {
    KillServer,
    StartServer,
}

/// The next step of a restart of the adb server from the tray.
pub enum RestartNext {
    /// Run this request; it is the given stage.
    Run(RestartStage, AdbRequest),
    /// The restart is over: tell the user.
    Report(TrayReport),
}

/// The next step of a restart, given the stage that just finished and
/// whether it succeeded (`None` at the start): stop the server, then start
/// it again; a failure of either ends the restart as failed.
pub fn restart_next(finished: Option<(RestartStage, bool)>) -> (r: RestartNext)
    ensures
        match finished {
            None => r matches RestartNext::Run(s, q) && s == RestartStage::KillServer
                && request_view(q) == (seq!["kill-server"@], 5u64),
            Some((RestartStage::KillServer, true)) => r matches RestartNext::Run(s, q) && s
                == RestartStage::StartServer && request_view(q) == (seq!["start-server"@], 10u64),
            Some((RestartStage::StartServer, true)) => r matches RestartNext::Report(t)
                && report_view(t) == ("restart_success"@, Some("adb-restarted"@)),
            Some((_, false)) => r matches RestartNext::Report(t) && report_view(t) == (
                "restart_failed"@,
                None::<Seq<char>>,
            ),
        },
{
    match finished {
        None => RestartNext::Run(RestartStage::KillServer, kill_server_request()),
        Some((RestartStage::KillServer, true)) => RestartNext::Run(
            RestartStage::StartServer,
            start_server_request(),
        ),
        Some((RestartStage::StartServer, true)) => RestartNext::Report(
            TrayReport { notify_key: "restart_success", event: Some("adb-restarted") },
        ),
        Some((_, false)) => RestartNext::Report(
            TrayReport { notify_key: "restart_failed", event: None },
        ),
    }
}

/// What the tray tells the user after enabling TCP/IP mode.
pub fn tcpip_report(ok: bool) -> (r: TrayReport)
    ensures
        report_view(r) == (if ok {
            ("tcpip_success"@, Some("tcpip-enabled"@))
        } else {
            ("tcpip_failed"@, None::<Seq<char>>)
        }),
{
    if ok {
        TrayReport { notify_key: "tcpip_success", event: Some("tcpip-enabled") }
    } else {
        TrayReport { notify_key: "tcpip_failed", event: None }
    }
}

/// What the tray tells the user after connecting to a device; the device
/// list is refreshed and sent to the window either way.
pub fn connect_report(ok: bool) -> (r: TrayReport)
    ensures
        report_view(r) == (if ok {
            "connect_success"@
        } else {
            "connect_failed"@
        }, Some("devices-updated"@)),
{
    if ok {
        TrayReport { notify_key: "connect_success", event: Some("devices-updated") }
    } else {
        TrayReport { notify_key: "connect_failed", event: Some("devices-updated") }
    }
}

/// Whether the popup window has just been shown, so that the focus it loses
/// while appearing does not hide it again.
pub struct WindowFocus {
    pub just_shown: bool,
}

impl WindowFocus {
    /// A window that has not been shown.
    pub fn new() -> (r: Self)
        ensures
            !r.just_shown,
    {
        WindowFocus { just_shown: false }
    }
}

/// The state once the window has been shown.
pub open spec fn after_show(f: WindowFocus) -> WindowFocus {
    WindowFocus { just_shown: true }
}

/// The state once the window has lost the focus.
pub open spec fn after_focus_loss(f: WindowFocus) -> WindowFocus {
    WindowFocus { just_shown: false }
}

/// Whether losing the focus hides the window: not when it was just shown.
pub open spec fn hides_on_focus_loss(f: WindowFocus) -> bool {
    !f.just_shown
}

/// Notes that the window was just shown.
pub fn mark_just_shown(focus: &mut WindowFocus)
    ensures
        *final(focus) == after_show(*old(focus)),
{
    focus.just_shown = true;
}

/// The window lost the focus: whether to hide it. The first loss after it
/// was shown is ignored.
pub fn focus_lost(focus: &mut WindowFocus) -> (hide: bool)
    ensures
        hide == hides_on_focus_loss(*old(focus)),
        *final(focus) == after_focus_loss(*old(focus)),
{
    let was = focus.just_shown;
    focus.just_shown = false;
    !was
}

/// What a left click on the tray icon does to the popup window.
#[derive(Clone, Copy, Debug, PartialEq, Eq, Structural)]
pub enum ClickResponse {
    Hide,
    /// Place the window under the icon, show and focus it.
    Show,
}

/// A left click on the tray icon hides a visible window and shows a hidden one.
pub fn tray_click(visible: bool, focus: &mut WindowFocus) -> (r: ClickResponse)
    ensures
        r == (if visible {
            ClickResponse::Hide
        } else {
            ClickResponse::Show
        }),
        *final(focus) == (if visible {
            *old(focus)
        } else {
            after_show(*old(focus))
        }),
{
    if visible {
        ClickResponse::Hide
    } else {
        mark_just_shown(focus);
        ClickResponse::Show
    }
}

/// The byte at `i` of an RGBA image whose colours are inverted: every red,
/// green and blue byte of a whole pixel becomes `255 - x`; alpha and any
/// trailing partial pixel stay.
pub open spec fn inverted_at(data: Seq<u8>, i: int) -> u8 {
    if i < data.len() - data.len() % 4 && i % 4 != 3 {
        (255 - data[i]) as u8
    } else {
        data[i]
    }
}

/// Inverts the colours of RGBA pixels, keeping their alpha.
pub fn invert_rgb(data: &mut Vec<u8>)
    ensures
        final(data)@.len() == old(data)@.len(),
        forall|i: int| 0 <= i < old(data)@.len() ==> final(data)@[i] == inverted_at(old(data)@, i),
{
    let ghost orig = data@;
    let n = data.len();
    let whole = n - n % 4;
    let mut i: usize = 0;
    while i < n
        invariant
            n == orig.len(),
            data@.len() == n,
            whole == n - n % 4,
            i <= n,
            forall|j: int| 0 <= j < i ==> data@[j] == inverted_at(orig, j),
            forall|j: int| i <= j < n ==> data@[j] == orig[j],
        decreases n - i,
    {
        if i < whole && i % 4 != 3 {
            let x = data[i];
            data.set(i, 255 - x);
        }
        i = i + 1;
    }
}

/// The tray icon's pixels on `platform`: inverted on Windows, whose taskbar
/// is dark, as they are elsewhere.
pub fn tray_icon_pixels(platform: Platform, rgba: Vec<u8>) -> (r: Vec<u8>)
    ensures
        r@.len() == rgba@.len(),
        forall|i: int| 0 <= i < rgba@.len() ==> r@[i] == (if platform == Platform::Windows {
            inverted_at(rgba@, i)
        } else {
            rgba@[i]
        }),
{
    let mut data = rgba;
    if platform == Platform::Windows {
        invert_rgb(&mut data);
    }
    data
}

/// The entry of any device connects to that device's address when clicked.
pub proof fn law_device_entry_connects(d: DeviceView)
    ensures
        connect_target(device_entry_of(d).0) == Some(address_of(d)),
        device_entry_of(d).0 != "quit"@,
        device_entry_of(d).0 != "restart-adb"@,
        device_entry_of(d).0 != "enable-tcpip"@,
        device_entry_of(d).0 != "disconnect-all"@,
{
    let id = device_entry_of(d).0;
    reveal_strlit("connect:");
    reveal_strlit("quit");
    reveal_strlit("restart-adb");
    reveal_strlit("enable-tcpip");
    reveal_strlit("disconnect-all");
    assert(id.subrange(0, 8) =~= "connect:"@);
    assert(id.skip(8) =~= address_of(d));
    assert(id[0] == 'c');
    assert("quit"@[0] == 'q');
    assert("restart-adb"@[0] == 'r');
    assert("enable-tcpip"@[0] == 'e');
    assert("disconnect-all"@[0] == 'd');
}

/// The tray order keeps as many devices as are stored, with all pinned ones
/// before all others.
pub proof fn law_tray_order_pinned_first(ds: Seq<DeviceView>)
    ensures
        tray_order_of(ds).len() == ds.len(),
        forall|i: int, j: int|
            0 <= i < j < ds.len() && !(#[trigger] tray_order_of(ds)[i]).pinned ==> !(
            #[trigger] tray_order_of(ds)[j]).pinned,
    decreases ds.len(),
{
    let a = ds.filter(pinned_pred());
    let b = ds.filter(unpinned_pred());
    lemma_filter_sizes(ds);
    assert forall|i: int, j: int|
        0 <= i < j < ds.len() && !(#[trigger] tray_order_of(ds)[i]).pinned implies !(
        #[trigger] tray_order_of(ds)[j]).pinned by {
        if i < a.len() {
            ds.lemma_filter_pred(pinned_pred(), i);
            assert(tray_order_of(ds)[i] == a[i]);
        }
        assert(j >= a.len());
        ds.lemma_filter_pred(unpinned_pred(), j - a.len());
        assert(tray_order_of(ds)[j] == b[j - a.len()]);
    }
}

/// The tray lists exactly the stored devices, each as often as it is stored.
pub proof fn law_tray_order_keeps_every_device(ds: Seq<DeviceView>)
    ensures
        tray_order_of(ds).to_multiset() == ds.to_multiset(),
    decreases ds.len(),
{
    broadcast use vstd::seq_lib::group_to_multiset_ensures, vstd::multiset::group_multiset_axioms;
    reveal(Seq::filter);
    let a = ds.filter(pinned_pred());
    let b = ds.filter(unpinned_pred());
    vstd::seq_lib::lemma_multiset_commutative(a, b);
    if ds.len() == 0 {
        assert(a =~= Seq::<DeviceView>::empty());
        assert(b =~= Seq::<DeviceView>::empty());
        assert(ds.to_multiset() =~= vstd::multiset::Multiset::empty());
        assert(tray_order_of(ds).to_multiset() =~= ds.to_multiset());
    } else {
        let t = ds.drop_last();
        let x = ds.last();
        law_tray_order_keeps_every_device(t);
        vstd::seq_lib::lemma_multiset_commutative(t.filter(pinned_pred()), t.filter(unpinned_pred()));
        assert(ds =~= t.push(x));
        assert(ds.to_multiset() =~= t.to_multiset().insert(x));
        if x.pinned {
            assert(a == t.filter(pinned_pred()).push(x));
            assert(b == t.filter(unpinned_pred()));
        } else {
            assert(a == t.filter(pinned_pred()));
            assert(b == t.filter(unpinned_pred()).push(x));
        }
        assert(tray_order_of(ds).to_multiset() =~= ds.to_multiset());
    }
}

/// Splitting the devices by pinning loses none and adds none.
proof fn lemma_filter_sizes(ds: Seq<DeviceView>)
    ensures
        ds.filter(pinned_pred()).len() + ds.filter(unpinned_pred()).len() == ds.len(),
    decreases ds.len(),
{
    reveal(Seq::filter);
    if ds.len() > 0 {
        lemma_filter_sizes(ds.drop_last());
    }
}

/// After the window is shown, the focus it loses first leaves it visible,
/// and the next loss hides it.
pub proof fn law_first_focus_loss_after_show_is_ignored(f: WindowFocus)
    ensures
        !hides_on_focus_loss(after_show(f)),
        hides_on_focus_loss(after_focus_loss(after_show(f))),
{
}

/// Each device of the Quick Connect submenu, in order, gets an entry that
/// connects to `ip:port`; a device whose status is "connected" is marked with
/// a green dot and cannot be clicked, and a device with any other status is
/// unmarked and can be clicked to connect.
pub proof fn law_quick_connect_entries(locale: Locale, ds: Seq<DeviceView>)
    requires
        ds.len() > 0,
    ensures
        quick_connect_of(locale, ds).len() == ds.len(),
        forall|i: int|
            0 <= i < ds.len() ==> {
                let e = #[trigger] quick_connect_of(locale, ds)[i];
                let addr = ds[i].ip_address + seq![':'] + text::dec(ds[i].port as nat);
                &&& e.0 == "connect:"@ + addr
                &&& e.2 == (ds[i].status != "connected"@)
                &&& e.1 == (if ds[i].status == "connected"@ {
                    "🟢 "@
                } else {
                    Seq::<char>::empty()
                }) + ds[i].name + " ("@ + addr + ")"@
            },
{
    reveal_strlit("");
    assert forall|i: int| 0 <= i < ds.len() implies {
        let e = #[trigger] quick_connect_of(locale, ds)[i];
        let addr = ds[i].ip_address + seq![':'] + text::dec(ds[i].port as nat);
        &&& e.0 == "connect:"@ + addr
        &&& e.2 == (ds[i].status != "connected"@)
        &&& e.1 == (if ds[i].status == "connected"@ {
            "🟢 "@
        } else {
            Seq::<char>::empty()
        }) + ds[i].name + " ("@ + addr + ")"@
    } by {
        assert(""@ =~= Seq::<char>::empty());
    }
}

} // verus!
