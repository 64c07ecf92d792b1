use vstd::prelude::*;
use vstd::string::StringSliceAdditionalSpecFns;
use crate::geom::PaneId;
use crate::notification::{
    DesktopNotification, NotificationModel, BEL, ESC, OPEN_BRACKET, notification_of,
    notification_from_osc,
};

verus! {

/// Where the scanner of a pane's output stands: in plain text, after an `ESC`, or inside an
/// operating system command (`ESC ]`).
#[derive(Clone, Copy, Debug, PartialEq, Eq, Structural)]
pub enum ScanMode {
    Ground,
    Escape,
    Osc,
}

/// The scanner's state as a value: where it stands, the command read so far, the notifications
/// found and not yet taken, and whether a bell rang outside any command.
pub struct ScanModel {
    pub mode: ScanMode,
    pub body: Seq<u8>,
    pub notifications: Seq<NotificationModel>,
    pub rang_bell: bool,
}

/// The scanner after an operating system command ended: its notification, if any, is kept.
pub open spec fn finish_command(s: ScanModel, mode: ScanMode) -> ScanModel {
    ScanModel {
        mode,
        body: Seq::empty(),
        notifications: match notification_of(s.body) {
            Some(n) => s.notifications.push(n),
            None => s.notifications,
        },
        rang_bell: s.rang_bell,
    }
}

/// One byte of output through the scanner. A command ends at `BEL` or at the `ESC` that starts
/// its `ESC \` terminator (or any other escape); a `BEL` outside a command is a bell.
pub open spec fn scan_step(s: ScanModel, b: u8) -> ScanModel {
    match s.mode {
        ScanMode::Ground => if b == ESC {
            ScanModel { mode: ScanMode::Escape, ..s }
        } else if b == BEL {
            ScanModel { rang_bell: true, ..s }
        } else {
            s
        },
        ScanMode::Escape => if b == OPEN_BRACKET {
            ScanModel { mode: ScanMode::Osc, body: Seq::empty(), ..s }
        } else if b == ESC {
            s
        } else {
            ScanModel { mode: ScanMode::Ground, ..s }
        },
        ScanMode::Osc => if b == BEL {
            finish_command(s, ScanMode::Ground)
        } else if b == ESC {
            finish_command(s, ScanMode::Escape)
        } else {
            ScanModel { body: s.body.push(b), ..s }
        },
    }
}

/// The scanner after a run of output bytes.
pub open spec fn scan(s: ScanModel, bytes: Seq<u8>) -> ScanModel
    decreases bytes.len(),
{
    if bytes.len() == 0 {
        s
    } else {
        scan_step(scan(s, bytes.drop_last()), bytes.last())
    }
}

/// Output without escape sequences asks for nothing: bells and text leave the scanner in plain
/// text with the notifications it had.
pub proof fn law_plain_output_asks_nothing(s: ScanModel, bytes: Seq<u8>)
    requires
        s.mode == ScanMode::Ground,
        forall|i: int| 0 <= i < bytes.len() ==> bytes[i] != ESC,
    ensures
        scan(s, bytes).mode == ScanMode::Ground,
        scan(s, bytes).notifications == s.notifications,
    decreases bytes.len(),
{
    if bytes.len() > 0 {
        law_plain_output_asks_nothing(s, bytes.drop_last());
    }
}

/// A terminal pane as far as attention goes: its id, whether it asks for attention, and the
/// scanner of its output.
#[derive(Debug)]
pub struct AttentionPane {
    pub pane_id: PaneId,
    pub attention: bool,
    pub mode: ScanMode,
    pub body: Vec<u8>,
    pub notifications: Vec<DesktopNotification>,
    pub rang_bell: bool,
}

impl AttentionPane {
    /// The pane's scanner as a value.
    pub open spec fn scan_model(&self) -> ScanModel {
        ScanModel {
            mode: self.mode,
            body: self.body@,
            notifications: self.notifications@.map_values(|n: DesktopNotification| n@),
            rang_bell: self.rang_bell,
        }
    }

    /// A quiet pane.
    pub fn new(pane_id: PaneId) -> (p: Self)
        ensures
            p.pane_id == pane_id,
            !p.attention,
            p.scan_model() == (ScanModel {
                mode: ScanMode::Ground,
                body: Seq::empty(),
                notifications: Seq::empty(),
                rang_bell: false,
            }),
    {
        let p = AttentionPane {
            pane_id,
            attention: false,
            mode: ScanMode::Ground,
            body: Vec::new(),
            notifications: Vec::new(),
            rang_bell: false,
        };
        assert(p.scan_model().notifications =~= Seq::<NotificationModel>::empty());
        p
    }

    pub fn has_attention(&self) -> (r: bool)
        ensures
            r == self.attention,
    {
        self.attention
    }

    fn finish(&mut self, mode: ScanMode)
        ensures
            final(self).pane_id == old(self).pane_id,
            final(self).attention == old(self).attention,
            final(self).scan_model() == finish_command(old(self).scan_model(), mode),
    {
        let found = notification_from_osc(&self.body);
        let ghost before = self.notifications@.map_values(|n: DesktopNotification| n@);
        match found {
            Some(n) => {
                let ghost m = n@;
                self.notifications.push(n);
                assert(self.notifications@.map_values(|n: DesktopNotification| n@) =~= before.push(m));
            },
            None => {},
        }
        self.body = Vec::new();
        self.mode = mode;
        assert(self.body@ =~= Seq::<u8>::empty());
    }

    /// Reads output from the pane's program, keeping the notifications it asks for.
    pub fn handle_pty_bytes(&mut self, bytes: &[u8])
        ensures
            final(self).pane_id == old(self).pane_id,
            final(self).attention == old(self).attention,
            final(self).scan_model() == scan(old(self).scan_model(), bytes@),
    {
        let ghost start = self.scan_model();
        let mut i: usize = 0;
        while i < bytes.len()
            invariant
                i <= bytes@.len(),
                self.pane_id == old(self).pane_id,
                self.attention == old(self).attention,
                start == old(self).scan_model(),
                self.scan_model() == scan(start, bytes@.take(i as int)),
            decreases bytes@.len() - i,
        {
            let b = bytes[i];
            assert(bytes@.take(i + 1).drop_last() =~= bytes@.take(i as int));
            match self.mode {
                ScanMode::Ground => {
                    if b == ESC {
                        self.mode = ScanMode::Escape;
                    } else if b == BEL {
                        self.rang_bell = true;
                    }
                },
                ScanMode::Escape => {
                    if b == OPEN_BRACKET {
                        self.mode = ScanMode::Osc;
                        self.body = Vec::new();
                        assert(self.body@ =~= Seq::<u8>::empty());
                    } else if b != ESC {
                        self.mode = ScanMode::Ground;
                    }
                },
                ScanMode::Osc => {
                    if b == BEL {
                        self.finish(ScanMode::Ground);
                    } else if b == ESC {
                        self.finish(ScanMode::Escape);
                    } else {
                        self.body.push(b);
                    }
                },
            }
            i += 1;
        }
        assert(bytes@.take(i as int) =~= bytes@);
    }

    /// Takes the notifications found so far.
    pub fn drain_desktop_notifications(&mut self) -> (taken: Vec<DesktopNotification>)
        ensures
            taken@.map_values(|n: DesktopNotification| n@) == old(self).scan_model().notifications,
            final(self).scan_model() == (ScanModel { notifications: Seq::empty(), ..old(self).scan_model() }),
            final(self).pane_id == old(self).pane_id,
            final(self).attention == old(self).attention,
    {
        let mut taken: Vec<DesktopNotification> = Vec::new();
        std::mem::swap(&mut taken, &mut self.notifications);
        assert(self.notifications@.map_values(|n: DesktopNotification| n@) =~= Seq::<NotificationModel>::empty());
        taken
    }
}

/// A pane as a value.
pub struct PaneModel {
    pub pane_id: PaneId,
    pub attention: bool,
    pub scan: ScanModel,
}

impl AttentionPane {
    pub open spec fn model(&self) -> PaneModel {
        PaneModel { pane_id: self.pane_id, attention: self.attention, scan: self.scan_model() }
    }
}

/// The panes as values.
pub open spec fn pane_models(panes: Seq<AttentionPane>) -> Seq<PaneModel> {
    panes.map_values(|p: AttentionPane| p.model())
}

/// The first index of a pane with the id.
pub open spec fn pane_index_from(panes: Seq<PaneModel>, id: PaneId, i: int) -> Option<int>
    decreases panes.len() - i,
{
    if i < 0 || i >= panes.len() {
        None
    } else if panes[i].pane_id == id {
        Some(i)
    } else {
        pane_index_from(panes, id, i + 1)
    }
}

pub open spec fn pane_index(panes: Seq<PaneModel>, id: PaneId) -> Option<int> {
    pane_index_from(panes, id, 0)
}

pub proof fn lemma_pane_index(panes: Seq<PaneModel>, id: PaneId, i: int)
    requires
        0 <= i <= panes.len(),
    ensures
        match pane_index_from(panes, id, i) {
            Some(k) => i <= k < panes.len() && panes[k].pane_id == id,
            None => forall|j: int| i <= j < panes.len() ==> panes[j].pane_id != id,
        },
    decreases panes.len() - i,
{
    if i < panes.len() && panes[i].pane_id != id {
        lemma_pane_index(panes, id, i + 1);
    }
}

/// A tab as far as attention goes: its panes from top to bottom, the focused one, and the
/// bells waiting to be shown.
#[derive(Debug)]
pub struct AttentionTab {
    pub index: usize,
    pub panes: Vec<AttentionPane>,
    pub active_pane_id: Option<PaneId>,
    pub panes_with_pending_bell: Vec<PaneId>,
    pub tab_has_pending_bell: bool,
}

/// A tab as a value.
pub struct TabModel {
    pub index: usize,
    pub panes: Seq<PaneModel>,
    pub active_pane_id: Option<PaneId>,
    pub panes_with_pending_bell: Seq<PaneId>,
    pub tab_has_pending_bell: bool,
}

impl View for AttentionTab {
    type V = TabModel;

    open spec fn view(&self) -> TabModel {
        TabModel {
            index: self.index,
            panes: pane_models(self.panes@),
            active_pane_id: self.active_pane_id,
            panes_with_pending_bell: self.panes_with_pending_bell@,
            tab_has_pending_bell: self.tab_has_pending_bell,
        }
    }
}

/// Whether some pane of the tab asks for attention.
pub open spec fn pending_attention(t: TabModel) -> bool {
    exists|i: int| 0 <= i < t.panes.len() && #[trigger] t.panes[i].attention
}

/// The tab with the attention of its pane at `i` set or cleared.
pub open spec fn with_attention(t: TabModel, i: int, on: bool) -> TabModel {
    TabModel {
        panes: t.panes.update(i, PaneModel { attention: on, ..t.panes[i] }),
        ..t
    }
}

/// The pane that takes the focus when the pane at `i` leaves: the one above, else the one
/// below; none when it was alone.
pub open spec fn focus_after_closing(panes: Seq<PaneModel>, i: int) -> Option<PaneId> {
    if i > 0 {
        Some(panes[i - 1].pane_id)
    } else if panes.len() > 1 {
        Some(panes[1].pane_id)
    } else {
        None
    }
}

/// The ids without `id`.
pub open spec fn without_id(ids: Seq<PaneId>, id: PaneId) -> Seq<PaneId>
    decreases ids.len(),
{
    if ids.len() == 0 {
        ids
    } else {
        let rest = without_id(ids.drop_last(), id);
        if ids.last() != id {
            rest.push(ids.last())
        } else {
            rest
        }
    }
}

/// The tab with the focus moved to the pane below the focused one, when there is one.
pub open spec fn focus_moved_down(t: TabModel) -> TabModel {
    match t.active_pane_id {
        Some(id) => match pane_index(t.panes, id) {
            Some(i) => if i + 1 < t.panes.len() {
                TabModel { active_pane_id: Some(t.panes[i + 1].pane_id), ..t }
            } else {
                t
            },
            None => t,
        },
        None => t,
    }
}

/// The tab with the focus moved to the pane above the focused one, when there is one.
pub open spec fn focus_moved_up(t: TabModel) -> TabModel {
    match t.active_pane_id {
        Some(id) => match pane_index(t.panes, id) {
            Some(i) => if i > 0 {
                TabModel { active_pane_id: Some(t.panes[i - 1].pane_id), ..t }
            } else {
                t
            },
            None => t,
        },
        None => t,
    }
}

/// The tab without its first pane with the id: the pane leaves with its attention and its
/// bell, and when it had the focus the pane above it (else below) takes it.
pub open spec fn pane_closed(t: TabModel, pane_id: PaneId) -> TabModel {
    match pane_index(t.panes, pane_id) {
        Some(i) => TabModel {
            panes: t.panes.remove(i),
            active_pane_id: if t.active_pane_id == Some(pane_id) {
                focus_after_closing(t.panes, i)
            } else {
                t.active_pane_id
            },
            panes_with_pending_bell: without_id(t.panes_with_pending_bell, pane_id),
            ..t
        },
        None => t,
    }
}

impl AttentionTab {
    /// A tab with the given panes, the first focused.
    pub fn new(index: usize, panes: Vec<AttentionPane>) -> (t: Self)
        ensures
            t@.index == index,
            t@.panes == pane_models(panes@),
            t@.active_pane_id == (if panes@.len() > 0 { Some(panes@[0].pane_id) } else { None::<PaneId> }),
            t@.panes_with_pending_bell.len() == 0,
            !t@.tab_has_pending_bell,
    {
        let active_pane_id = if panes.len() > 0 { Some(panes[0].pane_id) } else { None };
        AttentionTab {
            index,
            panes,
            active_pane_id,
            panes_with_pending_bell: Vec::new(),
            tab_has_pending_bell: false,
        }
    }

    fn find_pane(&self, pane_id: PaneId) -> (r: Option<usize>)
        ensures
            match r {
                Some(i) => pane_index(self@.panes, pane_id) == Some(i as int) && i < self.panes@.len()
                    && self.panes@[i as int].pane_id == pane_id,
                None => pane_index(self@.panes, pane_id) is None,
            },
    {
        proof {
            lemma_pane_index(self@.panes, pane_id, 0);
        }
        let mut i: usize = 0;
        while i < self.panes.len()
            invariant
                i <= self.panes@.len(),
                pane_index(self@.panes, pane_id) == pane_index_from(self@.panes, pane_id, i as int),
            decreases self.panes@.len() - i,
        {
            if self.panes[i].pane_id == pane_id {
                return Some(i);
            }
            i += 1;
        }
        None
    }

    /// Whether some pane of the tab asks for attention.
    pub fn has_pending_attention(&self) -> (r: bool)
        ensures
            r == pending_attention(self@),
    {
        let mut i: usize = 0;
        while i < self.panes.len()
            invariant
                i <= self.panes@.len(),
                forall|j: int| 0 <= j < i ==> !(#[trigger] self@.panes[j]).attention,
            decreases self.panes@.len() - i,
        {
            if self.panes[i].attention {
                assert(self@.panes[i as int].attention);
                return true;
            }
            i += 1;
        }
        false
    }

    /// The first pane with the id.
    pub fn get_pane_with_id(&self, pane_id: PaneId) -> (r: Option<&AttentionPane>)
        ensures
            match r {
                Some(p) => pane_index(self@.panes, pane_id) is Some && p.model() == self@.panes[pane_index(self@.panes, pane_id)->0],
                None => pane_index(self@.panes, pane_id) is None,
            },
    {
        match self.find_pane(pane_id) {
            Some(i) => Some(&self.panes[i]),
            None => None,
        }
    }

    /// Sets or clears the attention of the first pane with the id; nothing without one.
    pub fn set_pane_attention(&mut self, pane_id: PaneId, attention: bool)
        ensures
            match pane_index(old(self)@.panes, pane_id) {
                Some(i) => final(self)@ == with_attention(old(self)@, i, attention),
                None => final(self)@ == old(self)@,
            },
    {
        match self.find_pane(pane_id) {
            Some(i) => {
                let ghost before = self@;
                let mut pane = self.panes.remove(i);
                pane.attention = attention;
                self.panes.insert(i, pane);
                assert(self@.panes =~= with_attention(before, i as int, attention).panes);
            },
            None => {},
        }
    }

    /// Moves the focus to the pane below the focused one; false when there is none.
    pub fn move_focus_down(&mut self) -> (moved: bool)
        ensures
            final(self)@ == focus_moved_down(old(self)@),
            moved == (old(self)@.active_pane_id is Some
                && pane_index(old(self)@.panes, old(self)@.active_pane_id->0) is Some
                && pane_index(old(self)@.panes, old(self)@.active_pane_id->0)->0 + 1 < old(self)@.panes.len()),
    {
        if let Some(active) = self.active_pane_id {
            if let Some(i) = self.find_pane(active) {
                let len = self.panes.len();
                assert(i < len);
                if i + 1 < len {
                    self.active_pane_id = Some(self.panes[i + 1].pane_id);
                    return true;
                }
            }
        }
        false
    }

    /// Moves the focus to the pane above the focused one; false when there is none.
    pub fn move_focus_up(&mut self) -> (moved: bool)
        ensures
            final(self)@ == focus_moved_up(old(self)@),
            moved == (old(self)@.active_pane_id is Some
                && pane_index(old(self)@.panes, old(self)@.active_pane_id->0) is Some
                && pane_index(old(self)@.panes, old(self)@.active_pane_id->0)->0 > 0),
    {
        if let Some(active) = self.active_pane_id {
            if let Some(i) = self.find_pane(active) {
                if i > 0 {
                    self.active_pane_id = Some(self.panes[i - 1].pane_id);
                    return true;
                }
            }
        }
        false
    }

    /// Closes the first pane with the id: it leaves with its attention and its bell, and when
    /// it had the focus the pane above it (else below) takes it.
    pub fn close_pane(&mut self, pane_id: PaneId)
        ensures
            final(self)@ == pane_closed(old(self)@, pane_id),
    {
        let i = match self.find_pane(pane_id) {
            Some(i) => i,
            None => return,
        };
        let ghost before = self@;
        let focused = match self.active_pane_id {
            Some(a) => a == pane_id,
            None => false,
        };
        if focused {
            self.active_pane_id = if i > 0 {
                Some(self.panes[i - 1].pane_id)
            } else if self.panes.len() > 1 {
                Some(self.panes[1].pane_id)
            } else {
                None
            };
        }
        self.panes.remove(i);
        assert(pane_models(self.panes@) =~= before.panes.remove(i as int));
        let mut bells: Vec<PaneId> = Vec::new();
        let mut k: usize = 0;
        while k < self.panes_with_pending_bell.len()
            invariant
                k <= self.panes_with_pending_bell@.len(),
                bells@ == without_id(self.panes_with_pending_bell@.take(k as int), pane_id),
            decreases self.panes_with_pending_bell@.len() - k,
        {
            let b = self.panes_with_pending_bell[k];
            proof {
                let s = self.panes_with_pending_bell@.take(k + 1);
                assert(s.drop_last() =~= self.panes_with_pending_bell@.take(k as int));
                assert(s.last() == b);
            }
            if b != pane_id {
                bells.push(b);
            }
            k += 1;
        }
        assert(self.panes_with_pending_bell@.take(k as int) =~= self.panes_with_pending_bell@);
        self.panes_with_pending_bell = bells;
    }
}

/// A client attached to the screen: the tab it shows and whether its host terminal window has
/// the focus.
#[derive(Clone, Copy, Debug, PartialEq, Eq, Structural)]
pub struct ClientState {
    pub client_id: u16,
    pub tab_index: usize,
    pub host_focused: bool,
}

/// The screen as far as attention goes: its tabs and its clients.
#[derive(Debug)]
pub struct Screen {
    pub tabs: Vec<AttentionTab>,
    pub clients: Vec<ClientState>,
    pub visual_bell: bool,
}

/// The screen as a value.
pub struct ScreenModel {
    pub tabs: Seq<TabModel>,
    pub clients: Seq<ClientState>,
    pub visual_bell: bool,
}

impl View for Screen {
    type V = ScreenModel;

    open spec fn view(&self) -> ScreenModel {
        ScreenModel {
            tabs: self.tabs@.map_values(|t: AttentionTab| t@),
            clients: self.clients@,
            visual_bell: self.visual_bell,
        }
    }
}

/// The position of the first tab with the index.
pub open spec fn tab_position_from(tabs: Seq<TabModel>, index: usize, i: int) -> Option<int>
    decreases tabs.len() - i,
{
    if i < 0 || i >= tabs.len() {
        None
    } else if tabs[i].index == index {
        Some(i)
    } else {
        tab_position_from(tabs, index, i + 1)
    }
}

pub open spec fn tab_position(tabs: Seq<TabModel>, index: usize) -> Option<int> {
    tab_position_from(tabs, index, 0)
}

/// The position of the first client with the id.
pub open spec fn client_position_from(clients: Seq<ClientState>, client_id: u16, i: int) -> Option<int>
    decreases clients.len() - i,
{
    if i < 0 || i >= clients.len() {
        None
    } else if clients[i].client_id == client_id {
        Some(i)
    } else {
        client_position_from(clients, client_id, i + 1)
    }
}

pub open spec fn client_position(clients: Seq<ClientState>, client_id: u16) -> Option<int> {
    client_position_from(clients, client_id, 0)
}

/// The first tab, and the position of the pane in it, that holds the pane.
pub open spec fn locate_pane_from(tabs: Seq<TabModel>, id: PaneId, i: int) -> Option<(int, int)>
    decreases tabs.len() - i,
{
    if i < 0 || i >= tabs.len() {
        None
    } else if pane_index(tabs[i].panes, id) is Some {
        Some((i, pane_index(tabs[i].panes, id)->0))
    } else {
        locate_pane_from(tabs, id, i + 1)
    }
}

pub open spec fn locate_pane(tabs: Seq<TabModel>, id: PaneId) -> Option<(int, int)> {
    locate_pane_from(tabs, id, 0)
}

/// Someone is looking at the pane: a client whose host window has the focus shows the tab,
/// and the pane is the tab's focused pane.
pub open spec fn looking_at(m: ScreenModel, t: int, id: PaneId) -> bool {
    &&& m.tabs[t].active_pane_id == Some(id)
    &&& exists|c: int|
        0 <= c < m.clients.len() && (#[trigger] m.clients[c]).host_focused && tab_position(m.tabs, m.clients[c].tab_index) == Some(t)
}

/// The screen with one tab replaced.
pub open spec fn with_tab(m: ScreenModel, t: int, tab: TabModel) -> ScreenModel {
    ScreenModel { tabs: m.tabs.update(t, tab), ..m }
}

/// The screen after notifications from a terminal: the pane asks for attention unless nothing
/// was asked or someone is looking at it.
pub open spec fn notified(m: ScreenModel, id: PaneId, asked: bool) -> ScreenModel {
    match locate_pane(m.tabs, id) {
        None => m,
        Some((t, p)) => if !asked || looking_at(m, t, id) {
            m
        } else {
            with_tab(m, t, with_attention(m.tabs[t], p, true))
        },
    }
}

/// The screen after a client acknowledges what it looks at: the focused pane of its tab stops
/// asking for attention, as long as its host window has the focus.
pub open spec fn acknowledged(m: ScreenModel, client_id: u16) -> ScreenModel {
    match client_position(m.clients, client_id) {
        None => m,
        Some(c) => {
            let client = m.clients[c];
            if !client.host_focused {
                m
            } else {
                match tab_position(m.tabs, client.tab_index) {
                    None => m,
                    Some(t) => match m.tabs[t].active_pane_id {
                        None => m,
                        Some(a) => match pane_index(m.tabs[t].panes, a) {
                            None => m,
                            Some(p) => with_tab(m, t, with_attention(m.tabs[t], p, false)),
                        },
                    },
                }
            }
        },
    }
}

/// The screen after the output of a terminal pane was read: the pane's scanner went through
/// the bytes and handed over the notifications it found.
pub open spec fn fed(m: ScreenModel, t: int, p: int, bytes: Seq<u8>) -> ScreenModel {
    let pane = m.tabs[t].panes[p];
    let scanned = scan(pane.scan, bytes);
    with_tab(m, t, TabModel {
        panes: m.tabs[t].panes.update(p, PaneModel { scan: ScanModel { notifications: Seq::empty(), ..scanned }, ..pane }),
        ..m.tabs[t]
    })
}

impl Screen {
    fn find_tab(&self, index: usize) -> (r: Option<usize>)
        ensures
            match r {
                Some(t) => tab_position(self@.tabs, index) == Some(t as int) && t < self.tabs@.len(),
                None => tab_position(self@.tabs, index) is None,
            },
    {
        let mut i: usize = 0;
        while i < self.tabs.len()
            invariant
                i <= self.tabs@.len(),
                tab_position(self@.tabs, index) == tab_position_from(self@.tabs, index, i as int),
            decreases self.tabs@.len() - i,
        {
            if self.tabs[i].index == index {
                return Some(i);
            }
            i += 1;
        }
        None
    }

    fn find_client(&self, client_id: u16) -> (r: Option<usize>)
        ensures
            match r {
                Some(c) => client_position(self@.clients, client_id) == Some(c as int) && c < self.clients@.len(),
                None => client_position(self@.clients, client_id) is None,
            },
    {
        let mut i: usize = 0;
        while i < self.clients.len()
            invariant
                i <= self.clients@.len(),
                client_position(self@.clients, client_id) == client_position_from(self@.clients, client_id, i as int),
            decreases self.clients@.len() - i,
        {
            if self.clients[i].client_id == client_id {
                return Some(i);
            }
            i += 1;
        }
        None
    }

    fn locate(&self, pane_id: PaneId) -> (r: Option<(usize, usize)>)
        ensures
            match r {
                Some((t, p)) => locate_pane(self@.tabs, pane_id) == Some((t as int, p as int))
                    && t < self.tabs@.len() && p < self.tabs@[t as int].panes@.len(),
                None => locate_pane(self@.tabs, pane_id) is None,
            },
    {
        let mut i: usize = 0;
        while i < self.tabs.len()
            invariant
                i <= self.tabs@.len(),
                locate_pane(self@.tabs, pane_id) == locate_pane_from(self@.tabs, pane_id, i as int),
            decreases self.tabs@.len() - i,
        {
            assert(self@.tabs[i as int] == self.tabs@[i as int]@);
            match self.tabs[i].find_pane(pane_id) {
                Some(p) => return Some((i, p)),
                None => {},
            }
            i += 1;
        }
        None
    }

    /// Whether someone looks at the focused pane `pane_id` of the tab at `t`.
    fn is_looking_at(&self, t: usize, pane_id: PaneId) -> (r: bool)
        requires
            t < self.tabs@.len(),
        ensures
            r == looking_at(self@, t as int, pane_id),
    {
        assert(self@.tabs[t as int] == self.tabs@[t as int]@);
        match self.tabs[t].active_pane_id {
            Some(a) => {
                if a != pane_id {
                    return false;
                }
            },
            None => return false,
        }
        let mut c: usize = 0;
        while c < self.clients.len()
            invariant
                c <= self.clients@.len(),
                t < self.tabs@.len(),
                self@.tabs[t as int].active_pane_id == Some(pane_id),
                forall|j: int| 0 <= j < c ==> !((#[trigger] self@.clients[j]).host_focused && tab_position(self@.tabs, self@.clients[j].tab_index) == Some(t as int)),
            decreases self.clients@.len() - c,
        {
            let client = self.clients[c];
            if client.host_focused {
                match self.find_tab(client.tab_index) {
                    Some(k) => {
                        if k == t {
                            assert(self@.clients[c as int] == client);
                            return true;
                        }
                    },
                    None => {},
                }
            }
            c += 1;
        }
        false
    }

    /// Sets the attention of the pane at `p` of the tab at `t`.
    fn set_attention_at(&mut self, t: usize, p: usize, on: bool)
        requires
            t < old(self).tabs@.len(),
            p < old(self).tabs@[t as int].panes@.len(),
        ensures
            final(self)@ == with_tab(old(self)@, t as int, with_attention(old(self)@.tabs[t as int], p as int, on)),
    {
        let ghost before = self@;
        let mut tab = self.tabs.remove(t);
        let ghost tab0 = tab@;
        let mut pane = tab.panes.remove(p);
        pane.attention = on;
        tab.panes.insert(p, pane);
        assert(tab@.panes =~= with_attention(tab0, p as int, on).panes);
        let ghost tab1 = tab@;
        self.tabs.insert(t, tab);
        assert(self@.tabs =~= before.tabs.update(t as int, tab1));
    }

    /// The tab with the index.
    pub fn tab(&self, index: usize) -> (r: Option<&AttentionTab>)
        ensures
            match r {
                Some(tab) => tab_position(self@.tabs, index) is Some && tab@ == self@.tabs[tab_position(self@.tabs, index)->0],
                None => tab_position(self@.tabs, index) is None,
            },
    {
        match self.find_tab(index) {
            Some(t) => Some(&self.tabs[t]),
            None => None,
        }
    }

    /// Hands the screen the notifications a terminal pane asked for.
    pub fn handle_desktop_notifications(&mut self, notifications: &Vec<DesktopNotification>, terminal_id: u32)
        ensures
            final(self)@ == notified(old(self)@, PaneId::Terminal(terminal_id), notifications@.len() > 0),
    {
        if notifications.len() == 0 {
            return;
        }
        let pane_id = PaneId::Terminal(terminal_id);
        let (t, p) = match self.locate(pane_id) {
            Some(found) => found,
            None => return,
        };
        if self.is_looking_at(t, pane_id) {
            return;
        }
        self.set_attention_at(t, p, true);
    }

    /// The client acknowledges the pane it looks at.
    pub fn acknowledge_focused_pane(&mut self, client_id: u16)
        ensures
            final(self)@ == acknowledged(old(self)@, client_id),
    {
        let c = match self.find_client(client_id) {
            Some(c) => c,
            None => return,
        };
        let client = self.clients[c];
        if !client.host_focused {
            return;
        }
        let t = match self.find_tab(client.tab_index) {
            Some(t) => t,
            None => return,
        };
        assert(self@.tabs[t as int] == self.tabs@[t as int]@);
        let active = match self.tabs[t].active_pane_id {
            Some(a) => a,
            None => return,
        };
        let p = match self.tabs[t].find_pane(active) {
            Some(p) => p,
            None => return,
        };
        self.set_attention_at(t, p, false);
    }

    /// The client's host window gained or lost the focus; on gaining it the client acknowledges
    /// the pane it looks at.
    pub fn host_terminal_focus_changed(&mut self, client_id: u16, focused: bool)
        ensures
            match client_position(old(self)@.clients, client_id) {
                None => final(self)@ == old(self)@,
                Some(c) => {
                    let m = ScreenModel {
                        clients: old(self)@.clients.update(c, ClientState { host_focused: focused, ..old(self)@.clients[c] }),
                        ..old(self)@
                    };
                    final(self)@ == if focused { acknowledged(m, client_id) } else { m }
                },
            },
    {
        let c = match self.find_client(client_id) {
            Some(c) => c,
            None => return,
        };
        let client = self.clients[c];
        self.clients.set(c, ClientState { host_focused: focused, ..client });
        if focused {
            proof {
                lemma_client_position_update(old(self)@.clients, client_id, c as int, focused);
            }
            self.acknowledge_focused_pane(client_id);
        }
    }

    /// Moves the focus of the tab down; false when the tab or a pane below is missing.
    pub fn move_focus_down(&mut self, tab_index: usize) -> (moved: bool)
        ensures
            match tab_position(old(self)@.tabs, tab_index) {
                None => !moved && final(self)@ == old(self)@,
                Some(t) => final(self)@ == with_tab(old(self)@, t, focus_moved_down(old(self)@.tabs[t])),
            },
    {
        let t = match self.find_tab(tab_index) {
            Some(t) => t,
            None => return false,
        };
        let ghost before = self@;
        let mut tab = self.tabs.remove(t);
        let moved = tab.move_focus_down();
        let ghost tab1 = tab@;
        self.tabs.insert(t, tab);
        assert(self@.tabs =~= before.tabs.update(t as int, tab1));
        moved
    }

    /// Closes a pane of the tab.
    pub fn close_pane(&mut self, tab_index: usize, pane_id: PaneId)
        ensures
            match tab_position(old(self)@.tabs, tab_index) {
                None => final(self)@ == old(self)@,
                Some(t) => final(self)@ == with_tab(old(self)@, t, pane_closed(old(self)@.tabs[t], pane_id)),
            },
    {
        let t = match self.find_tab(tab_index) {
            Some(t) => t,
            None => return,
        };
        let ghost before = self@;
        let mut tab = self.tabs.remove(t);
        tab.close_pane(pane_id);
        let ghost tab1 = tab@;
        self.tabs.insert(t, tab);
        assert(self@.tabs =~= before.tabs.update(t as int, tab1));
    }

    /// Sets or clears the attention of a pane of the tab.
    pub fn set_pane_attention(&mut self, tab_index: usize, pane_id: PaneId, attention: bool)
        ensures
            match tab_position(old(self)@.tabs, tab_index) {
                None => final(self)@ == old(self)@,
                Some(t) => match pane_index(old(self)@.tabs[t].panes, pane_id) {
                    Some(i) => final(self)@ == with_tab(old(self)@, t, with_attention(old(self)@.tabs[t], i, attention)),
                    None => final(self)@ == old(self)@,
                },
            },
    {
        let t = match self.find_tab(tab_index) {
            Some(t) => t,
            None => return,
        };
        assert(self@.tabs[t as int] == self.tabs@[t as int]@);
        match self.tabs[t].find_pane(pane_id) {
            Some(p) => self.set_attention_at(t, p, attention),
            None => {},
        }
    }
}

proof fn lemma_client_position_update(clients: Seq<ClientState>, client_id: u16, c: int, focused: bool)
    requires
        client_position(clients, client_id) == Some(c),
        0 <= c < clients.len(),
    ensures
        client_position(clients.update(c, ClientState { host_focused: focused, ..clients[c] }), client_id) == Some(c),
{
    lemma_client_position_prefix(clients, clients.update(c, ClientState { host_focused: focused, ..clients[c] }), client_id, 0);
}

proof fn lemma_client_position_prefix(a: Seq<ClientState>, b: Seq<ClientState>, client_id: u16, i: int)
    requires
        a.len() == b.len(),
        forall|k: int| 0 <= k < a.len() ==> #[trigger] a[k].client_id == b[k].client_id,
    ensures
        client_position_from(a, client_id, i) == client_position_from(b, client_id, i),
    decreases a.len() - i,
{
    if 0 <= i < a.len() && a[i].client_id != client_id {
        lemma_client_position_prefix(a, b, client_id, i + 1);
    }
}

/// A screen with one tab of two quiet terminal panes, pane 1 focused above pane 2, shown to
/// client 1 whose host window has the focus, with the visual bell off.
pub fn attention_screen() -> (screen: Screen)
    ensures
        screen@.tabs.len() == 1,
        screen@.tabs[0].index == 0,
        screen@.tabs[0].panes.len() == 2,
        screen@.tabs[0].panes[0].pane_id == PaneId::Terminal(1),
        screen@.tabs[0].panes[1].pane_id == PaneId::Terminal(2),
        !screen@.tabs[0].panes[0].attention,
        !screen@.tabs[0].panes[1].attention,
        screen@.tabs[0].panes[0].scan.mode == ScanMode::Ground,
        screen@.tabs[0].panes[1].scan.mode == ScanMode::Ground,
        screen@.tabs[0].panes[0].scan.notifications.len() == 0,
        screen@.tabs[0].panes[1].scan.notifications.len() == 0,
        screen@.tabs[0].active_pane_id == Some(PaneId::Terminal(1)),
        screen@.tabs[0].panes_with_pending_bell.len() == 0,
        !screen@.tabs[0].tab_has_pending_bell,
        screen@.clients == seq![ClientState { client_id: 1, tab_index: 0, host_focused: true }],
        !screen@.visual_bell,
{
    let mut panes: Vec<AttentionPane> = Vec::new();
    panes.push(AttentionPane::new(PaneId::Terminal(1)));
    panes.push(AttentionPane::new(PaneId::Terminal(2)));
    let tab = AttentionTab::new(0, panes);
    let mut tabs: Vec<AttentionTab> = Vec::new();
    tabs.push(tab);
    let mut clients: Vec<ClientState> = Vec::new();
    clients.push(ClientState { client_id: 1, tab_index: 0, host_focused: true });
    let screen = Screen { tabs, clients, visual_bell: false };
    assert(screen@.clients =~= seq![ClientState { client_id: 1, tab_index: 0, host_focused: true }]);
    screen
}

/// Output of a terminal pane reaches the screen: the pane reads it, and the screen handles the
/// notifications the pane found.
pub fn send_attention_output(screen: &mut Screen, tab_id: usize, terminal_id: u32, output: &str)
    requires
        tab_position(old(screen)@.tabs, tab_id) is Some,
        pane_index(old(screen)@.tabs[tab_position(old(screen)@.tabs, tab_id)->0].panes, PaneId::Terminal(terminal_id)) is Some,
    ensures
        ({
            let t = tab_position(old(screen)@.tabs, tab_id)->0;
            let p = pane_index(old(screen)@.tabs[t].panes, PaneId::Terminal(terminal_id))->0;
            let asked = scan(old(screen)@.tabs[t].panes[p].scan, output.spec_bytes()).notifications.len() > 0;
            final(screen)@ == notified(fed(old(screen)@, t, p, output.spec_bytes()), PaneId::Terminal(terminal_id), asked)
        }),
{
    let pane_id = PaneId::Terminal(terminal_id);
    let t = match screen.find_tab(tab_id) {
        Some(t) => t,
        None => return,
    };
    let ghost before = screen@;
    let mut tab = screen.tabs.remove(t);
    let ghost tab0 = tab@;
    let p = match tab.find_pane(pane_id) {
        Some(p) => p,
        None => {
            screen.tabs.insert(t, tab);
            return;
        },
    };
    let mut pane = tab.panes.remove(p);
    let ghost pane0 = pane.model();
    pane.handle_pty_bytes(output.as_bytes());
    let notifications = pane.drain_desktop_notifications();
    let ghost pane1 = pane.model();
    tab.panes.insert(p, pane);
    assert(tab@.panes =~= tab0.panes.update(p as int, pane1));
    let ghost tab1 = tab@;
    screen.tabs.insert(t, tab);
    assert(screen@.tabs =~= before.tabs.update(t as int, tab1));
    assert(screen@ == fed(before, t as int, p as int, output.spec_bytes()));
    screen.handle_desktop_notifications(&notifications, terminal_id);
}

} // verus!
