//! The tray menu: what each entry identifier asks for, and what the
//! indicator does about it.
use vstd::prelude::*;

use crate::corner::{Corner, corner_named, is_corner_name};
use crate::monitor::monitor_item_id_text;
use crate::state::AppState;
use crate::text::{has_prefix, parse_decimal, parse_usize, parse_usize_text, same_text, strip_prefix};

verus! {

/// Which of the two announced addresses of the endpoint.
#[derive(Clone, Copy, PartialEq, Eq, Structural, Debug)]
pub enum AddressKind {
    Lan,
    Local,
}

/// What a tray menu entry asks for.
#[derive(Debug)]
pub enum MenuCommand {
    Quit,
    ToggleMute,
    SelectMonitor(usize),
    CopyAddress(AddressKind),
    /// The text of a transparency, still to be read as a number.
    SetTransparency(String),
    MoveTo(Corner),
    Ignore,
}

/// What the indicator is left to do after a menu entry was chosen.
#[derive(Debug)]
pub enum MenuOutcome {
    /// Quit the application.
    Exit,
    /// Sound was switched; tick the entry, tell the window, store settings.
    MuteChanged(bool),
    /// Corner or display changed; move the window, store settings.
    Relayout,
    /// Put this address on the clipboard, and tell the user once it is there.
    CopyToClipboard(String),
    /// Read this text as a transparency; where it reads, set it, tell the
    /// window and store settings.
    TransparencyText(String),
    Nothing,
}

/// Whether `c` is what the menu entry with identifier `id` asks for.
pub open spec fn is_command_for(id: Seq<char>, c: MenuCommand) -> bool {
    if id == "quit"@ {
        c == MenuCommand::Quit
    } else if id == "mute:toggle"@ {
        c == MenuCommand::ToggleMute
    } else if has_prefix(id, "monitor:"@) {
        c == match parse_usize_text(id.skip("monitor:"@.len() as int)) {
            Some(n) => MenuCommand::SelectMonitor(n),
            None => MenuCommand::Ignore,
        }
    } else if has_prefix(id, "info:"@) {
        let rest = id.skip("info:"@.len() as int);
        c == if rest == "lan"@ {
            MenuCommand::CopyAddress(AddressKind::Lan)
        } else if rest == "local"@ {
            MenuCommand::CopyAddress(AddressKind::Local)
        } else {
            MenuCommand::Ignore
        }
    } else if has_prefix(id, "transparency:"@) {
        c matches MenuCommand::SetTransparency(t) && t@ == id.skip("transparency:"@.len() as int)
    } else if has_prefix(id, "corner:"@) && is_corner_name(id.skip("corner:"@.len() as int)) {
        c == MenuCommand::MoveTo(Corner::from_name(id.skip("corner:"@.len() as int)))
    } else {
        c == MenuCommand::Ignore
    }
}

/// What the menu entry with identifier `id` asks for; see `is_command_for`.
pub fn menu_command(id: &str) -> (c: MenuCommand)
    ensures
        is_command_for(id@, c),
{
    if same_text(id, "quit") {
        return MenuCommand::Quit;
    }
    if same_text(id, "mute:toggle") {
        return MenuCommand::ToggleMute;
    }
    if let Some(rest) = strip_prefix(id, "monitor:") {
        return match parse_usize(rest) {
            Some(n) => MenuCommand::SelectMonitor(n),
            None => MenuCommand::Ignore,
        };
    }
    if let Some(rest) = strip_prefix(id, "info:") {
        return if same_text(rest, "lan") {
            MenuCommand::CopyAddress(AddressKind::Lan)
        } else if same_text(rest, "local") {
            MenuCommand::CopyAddress(AddressKind::Local)
        } else {
            MenuCommand::Ignore
        };
    }
    if let Some(rest) = strip_prefix(id, "transparency:") {
        return MenuCommand::SetTransparency(String::from_str(rest));
    }
    if let Some(rest) = strip_prefix(id, "corner:") {
        if let Some(c) = corner_named(rest) {
            return MenuCommand::MoveTo(c);
        }
    }
    MenuCommand::Ignore
}

/// The state after the command `c`.
pub open spec fn state_after(s: AppState, c: MenuCommand) -> AppState {
    match c {
        MenuCommand::ToggleMute => AppState { muted: !s.muted, ..s },
        MenuCommand::SelectMonitor(i) => AppState { monitor_index: i, ..s },
        MenuCommand::MoveTo(k) => AppState { corner: k, ..s },
        _ => s,
    }
}

/// Whether `o` is what is left to do after the command `c` in the state `s`.
pub open spec fn is_outcome_of(s: AppState, c: MenuCommand, o: MenuOutcome) -> bool {
    match c {
        MenuCommand::Quit => o == MenuOutcome::Exit,
        MenuCommand::ToggleMute => o == MenuOutcome::MuteChanged(!s.muted),
        MenuCommand::SelectMonitor(_) => o == MenuOutcome::Relayout,
        MenuCommand::MoveTo(_) => o == MenuOutcome::Relayout,
        MenuCommand::CopyAddress(k) => match s.server_info {
            Some(info) => o matches MenuOutcome::CopyToClipboard(url) && url@ == (if k
                == AddressKind::Lan {
                info.lan_url_text()
            } else {
                info.local_url_text()
            }),
            None => o == MenuOutcome::Nothing,
        },
        MenuCommand::SetTransparency(t) => o matches MenuOutcome::TransparencyText(x) && x@ == t@,
        MenuCommand::Ignore => o == MenuOutcome::Nothing,
    }
}

impl AppState {
    /// Carries out the menu command `cmd`; see `state_after` and
    /// `is_outcome_of`.
    pub fn apply_menu(&mut self, cmd: MenuCommand) -> (o: MenuOutcome)
        ensures
            *final(self) == state_after(*old(self), cmd),
            is_outcome_of(*old(self), cmd, o),
    {
        match cmd {
            MenuCommand::Quit => MenuOutcome::Exit,
            MenuCommand::ToggleMute => {
                self.muted = !self.muted;
                MenuOutcome::MuteChanged(self.muted)
            },
            MenuCommand::SelectMonitor(i) => {
                self.monitor_index = i;
                MenuOutcome::Relayout
            },
            MenuCommand::MoveTo(k) => {
                self.corner = k;
                MenuOutcome::Relayout
            },
            MenuCommand::CopyAddress(k) => match &self.server_info {
                Some(info) => {
                    let url = match k {
                        AddressKind::Lan => info.lan_url(),
                        AddressKind::Local => info.local_url(),
                    };
                    MenuOutcome::CopyToClipboard(url)
                },
                None => MenuOutcome::Nothing,
            },
            MenuCommand::SetTransparency(t) => MenuOutcome::TransparencyText(t),
            MenuCommand::Ignore => MenuOutcome::Nothing,
        }
    }
}

/// Switching the sound twice leaves the state as it was.
pub proof fn lemma_toggle_mute_twice(s: AppState)
    ensures
        state_after(state_after(s, MenuCommand::ToggleMute), MenuCommand::ToggleMute) == s,
{
}

/// The entry that the menu lists for display number `i` asks to move the
/// window to that display.
pub proof fn lemma_monitor_item_decodes(i: usize, c: MenuCommand)
    requires
        is_command_for(monitor_item_id_text(i), c),
    ensures
        c == MenuCommand::SelectMonitor(i),
{
    reveal_strlit("quit");
    reveal_strlit("mute:toggle");
    reveal_strlit("monitor:");
    let id = monitor_item_id_text(i);
    assert(id[0] == 'm');
    assert(id[1] == 'o');
    assert(id != "quit"@);
    assert(id != "mute:toggle"@);
    assert(id.take("monitor:"@.len() as int) =~= "monitor:"@);
    assert(id.skip("monitor:"@.len() as int) =~= crate::text::decimal_text(i as nat));
    crate::text::lemma_parse_decimal_text(i as nat);
}

/// The entry that the menu lists for a corner asks to move the window there.
pub proof fn lemma_corner_item_decodes(k: Corner, c: MenuCommand)
    requires
        is_command_for(k.menu_id_text(), c),
    ensures
        c == MenuCommand::MoveTo(k),
{
    reveal_strlit("quit");
    reveal_strlit("mute:toggle");
    reveal_strlit("monitor:");
    reveal_strlit("info:");
    reveal_strlit("transparency:");
    reveal_strlit("corner:");
    let id = k.menu_id_text();
    assert(id[0] == 'c');
    assert(id != "quit"@);
    assert(id != "mute:toggle"@);
    assert(!has_prefix(id, "monitor:"@)) by {
        if has_prefix(id, "monitor:"@) {
            assert(id.take("monitor:"@.len() as int)[0] == 'm');
        }
    }
    assert(!has_prefix(id, "info:"@)) by {
        if has_prefix(id, "info:"@) {
            assert(id.take("info:"@.len() as int)[0] == 'i');
        }
    }
    assert(!has_prefix(id, "transparency:"@)) by {
        if has_prefix(id, "transparency:"@) {
            assert(id.take("transparency:"@.len() as int)[0] == 't');
        }
    }
    assert(id.take("corner:"@.len() as int) =~= "corner:"@);
    assert(id.skip("corner:"@.len() as int) =~= k.name());
    crate::corner::lemma_corner_name_round_trip(k);
}

/// An entry `transparency:<t>` asks to set the transparency that `t` writes.
pub proof fn lemma_transparency_item_decodes(t: Seq<char>, c: MenuCommand)
    requires
        is_command_for("transparency:"@ + t, c),
    ensures
        c matches MenuCommand::SetTransparency(x) && x@ == t,
{
    reveal_strlit("quit");
    reveal_strlit("mute:toggle");
    reveal_strlit("monitor:");
    reveal_strlit("info:");
    reveal_strlit("transparency:");
    let id = "transparency:"@ + t;
    assert(id[0] == 't');
    assert(id != "quit"@);
    assert(id != "mute:toggle"@);
    assert(!has_prefix(id, "monitor:"@)) by {
        if has_prefix(id, "monitor:"@) {
            assert(id.take("monitor:"@.len() as int)[0] == 'm');
        }
    }
    assert(!has_prefix(id, "info:"@)) by {
        if has_prefix(id, "info:"@) {
            assert(id.take("info:"@.len() as int)[0] == 'i');
        }
    }
    assert(id.take("transparency:"@.len() as int) =~= "transparency:"@);
    assert(id.skip("transparency:"@.len() as int) =~= t);
}

/// Each menu command changes only what it is about: choosing a display sets
/// the display and keeps the corner, sound, transparency and endpoint;
/// choosing a corner sets the corner and keeps the rest; switching the sound
/// flips it and keeps the rest; every other command changes nothing.
pub proof fn lemma_menu_changes_only_its_field(s: AppState, c: MenuCommand)
    ensures
        c matches MenuCommand::SelectMonitor(i) ==> {
            let t = state_after(s, c);
            &&& t.monitor_index == i
            &&& t.corner == s.corner
            &&& t.muted == s.muted
            &&& t.transparency == s.transparency
            &&& t.server_info == s.server_info
        },
        c matches MenuCommand::MoveTo(k) ==> {
            let t = state_after(s, c);
            &&& t.corner == k
            &&& t.monitor_index == s.monitor_index
            &&& t.muted == s.muted
            &&& t.transparency == s.transparency
            &&& t.server_info == s.server_info
        },
        c is ToggleMute ==> {
            let t = state_after(s, c);
            &&& t.muted == !s.muted
            &&& t.corner == s.corner
            &&& t.monitor_index == s.monitor_index
            &&& t.transparency == s.transparency
            &&& t.server_info == s.server_info
        },
        (c is Quit || c is CopyAddress || c is SetTransparency || c is Ignore) ==> state_after(s, c)
            == s,
{
}

/// Choosing a display or a corner asks for the window to be laid out again;
/// quitting asks to exit; a copy with the endpoint running hands over the
/// chosen address, and without it does nothing.
pub proof fn lemma_menu_outcomes(s: AppState, c: MenuCommand, o: MenuOutcome)
    requires
        is_outcome_of(s, c, o),
    ensures
        (c is SelectMonitor || c is MoveTo) ==> o is Relayout,
        c is Quit ==> o is Exit,
        c is ToggleMute ==> o == MenuOutcome::MuteChanged(!s.muted),
        c == MenuCommand::CopyAddress(AddressKind::Lan) && s.server_info is Some ==> (o matches MenuOutcome::CopyToClipboard(url)
            && url@ == "http://"@ + s.server_info->0.lan_ip@ + ":"@ + crate::text::decimal_text(
            s.server_info->0.port as nat,
        )),
        c == MenuCommand::CopyAddress(AddressKind::Local) && s.server_info is Some ==> (o matches MenuOutcome::CopyToClipboard(url)
            && url@ == "http://127.0.0.1:"@ + crate::text::decimal_text(s.server_info->0.port as nat)),
        c is CopyAddress && s.server_info is None ==> o is Nothing,
        c is Ignore ==> o is Nothing,
        c matches MenuCommand::SetTransparency(t) ==> (o matches MenuOutcome::TransparencyText(x)
            && x@ == t@),
{
}

/// The fixed entries mean what they say.
pub proof fn lemma_fixed_items_decode(c: MenuCommand)
    ensures
        is_command_for("quit"@, c) ==> c == MenuCommand::Quit,
        is_command_for("mute:toggle"@, c) ==> c == MenuCommand::ToggleMute,
        is_command_for("info:lan"@, c) ==> c == MenuCommand::CopyAddress(AddressKind::Lan),
        is_command_for("info:local"@, c) ==> c == MenuCommand::CopyAddress(AddressKind::Local),
{
    reveal_strlit("quit");
    reveal_strlit("mute:toggle");
    reveal_strlit("monitor:");
    reveal_strlit("info:");
    reveal_strlit("info:lan");
    reveal_strlit("info:local");
    reveal_strlit("lan");
    reveal_strlit("local");
    assert("quit"@.len() != "mute:toggle"@.len());
    let lan = "info:lan"@;
    let local = "info:local"@;
    assert(lan.len() != "quit"@.len() && lan.len() != "mute:toggle"@.len());
    assert(local.len() != "quit"@.len() && local.len() != "mute:toggle"@.len());
    assert(!has_prefix(lan, "monitor:"@)) by {
        if has_prefix(lan, "monitor:"@) {
            assert(lan.take("monitor:"@.len() as int)[0] == 'm');
        }
    }
    assert(!has_prefix(local, "monitor:"@)) by {
        if has_prefix(local, "monitor:"@) {
            assert(local.take("monitor:"@.len() as int)[0] == 'm');
        }
    }
    assert(lan.take("info:"@.len() as int) =~= "info:"@);
    assert(local.take("info:"@.len() as int) =~= "info:"@);
    assert(lan.skip("info:"@.len() as int) =~= "lan"@);
    assert(local.skip("info:"@.len() as int) =~= "local"@);
    assert("local"@.len() != "lan"@.len());
}

/// An entry `monitor:<t>` selects the display whose index `t` writes, and
/// is ignored where `t` writes no number.
pub proof fn lemma_monitor_prefix(t: Seq<char>, c: MenuCommand)
    requires
        is_command_for("monitor:"@ + t, c),
    ensures
        c is SelectMonitor || c is Ignore,
        c matches MenuCommand::SelectMonitor(n) ==> parse_decimal(t) == Some(n as nat),
        parse_decimal(t) is None ==> c is Ignore,
{
    reveal_strlit("quit");
    reveal_strlit("mute:toggle");
    reveal_strlit("monitor:");
    let id = "monitor:"@ + t;
    assert(id[0] == 'm' && id[1] == 'o');
    assert(id != "quit"@);
    assert(id != "mute:toggle"@);
    assert(id.take("monitor:"@.len() as int) =~= "monitor:"@);
    assert(id.skip("monitor:"@.len() as int) =~= t);
}

/// An entry `info:<t>` copies the address on the local network for `lan`,
/// the one on this machine for `local`, and is ignored otherwise.
pub proof fn lemma_info_prefix(t: Seq<char>, c: MenuCommand)
    requires
        is_command_for("info:"@ + t, c),
    ensures
        t == "lan"@ ==> c == MenuCommand::CopyAddress(AddressKind::Lan),
        t == "local"@ ==> c == MenuCommand::CopyAddress(AddressKind::Local),
        t != "lan"@ && t != "local"@ ==> c is Ignore,
{
    reveal_strlit("quit");
    reveal_strlit("mute:toggle");
    reveal_strlit("monitor:");
    reveal_strlit("info:");
    reveal_strlit("lan");
    reveal_strlit("local");
    assert("local"@.len() != "lan"@.len());
    let id = "info:"@ + t;
    assert(id[0] == 'i');
    assert(id != "quit"@);
    assert(id != "mute:toggle"@);
    assert(!has_prefix(id, "monitor:"@)) by {
        if has_prefix(id, "monitor:"@) {
            assert(id.take("monitor:"@.len() as int)[0] == 'm');
        }
    }
    assert(id.take("info:"@.len() as int) =~= "info:"@);
    assert(id.skip("info:"@.len() as int) =~= t);
}

/// An entry `corner:<t>` moves the window to the corner named exactly `t`,
/// and is ignored where `t` names no corner; it never falls back to a
/// default corner.
pub proof fn lemma_corner_prefix(t: Seq<char>, c: MenuCommand)
    requires
        is_command_for("corner:"@ + t, c),
    ensures
        c is MoveTo || c is Ignore,
        c matches MenuCommand::MoveTo(k) ==> k.name() == t,
        !(t == "top-left"@ || t == "top-right"@ || t == "bottom-left"@ || t == "bottom-right"@)
            ==> c is Ignore,
{
    reveal_strlit("quit");
    reveal_strlit("mute:toggle");
    reveal_strlit("monitor:");
    reveal_strlit("info:");
    reveal_strlit("transparency:");
    reveal_strlit("corner:");
    let id = "corner:"@ + t;
    assert(id[0] == 'c');
    assert(id != "quit"@);
    assert(id != "mute:toggle"@);
    assert(!has_prefix(id, "monitor:"@)) by {
        if has_prefix(id, "monitor:"@) {
            assert(id.take("monitor:"@.len() as int)[0] == 'm');
        }
    }
    assert(!has_prefix(id, "info:"@)) by {
        if has_prefix(id, "info:"@) {
            assert(id.take("info:"@.len() as int)[0] == 'i');
        }
    }
    assert(!has_prefix(id, "transparency:"@)) by {
        if has_prefix(id, "transparency:"@) {
            assert(id.take("transparency:"@.len() as int)[0] == 't');
        }
    }
    assert(id.take("corner:"@.len() as int) =~= "corner:"@);
    assert(id.skip("corner:"@.len() as int) =~= t);
    if is_corner_name(t) {
        crate::corner::lemma_corner_name_round_trip(Corner::TopLeft);
        crate::corner::lemma_corner_name_round_trip(Corner::TopRight);
        crate::corner::lemma_corner_name_round_trip(Corner::BottomLeft);
        crate::corner::lemma_corner_name_round_trip(Corner::BottomRight);
    }
}

} // verus!
