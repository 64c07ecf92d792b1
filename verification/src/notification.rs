use vstd::prelude::*;

verus! {

/// ASCII codes the notification sequences are made of.
pub const BEL: u8 = 0x07;
pub const ESC: u8 = 0x1b;
pub const OPEN_BRACKET: u8 = 0x5d;
pub const SEMICOLON: u8 = 0x3b;
pub const COLON: u8 = 0x3a;

/// A desktop notification that a program asked for: a title (possibly empty) and a body.
#[derive(Clone, Debug)]
pub struct DesktopNotification {
    pub title: Vec<u8>,
    pub body: Vec<u8>,
}

/// A desktop notification as a value.
pub struct NotificationModel {
    pub title: Seq<u8>,
    pub body: Seq<u8>,
}

impl View for DesktopNotification {
    type V = NotificationModel;

    open spec fn view(&self) -> NotificationModel {
        NotificationModel { title: self.title@, body: self.body@ }
    }
}

/// `9;`: the start of an iTerm2 notification.
pub open spec fn osc9_prefix() -> Seq<u8> {
    seq![0x39u8, 0x3b]
}

/// `4;`: after `9;`, a ConEmu progress report rather than a notification.
pub open spec fn progress_prefix() -> Seq<u8> {
    seq![0x34u8, 0x3b]
}

/// `99;`: the start of a kitty notification.
pub open spec fn osc99_prefix() -> Seq<u8> {
    seq![0x39u8, 0x39, 0x3b]
}

/// `777;notify;`: the start of an rxvt notification.
pub open spec fn osc777_prefix() -> Seq<u8> {
    seq![0x37u8, 0x37, 0x37, 0x3b, 0x6e, 0x6f, 0x74, 0x69, 0x66, 0x79, 0x3b]
}

/// The kitty metadata fields that make a sequence control traffic rather than a notification:
/// `p=?` (a query), `p=alive`, `p=close`, and `d=0` (a notification not yet complete).
pub open spec fn control_fields() -> Seq<Seq<u8>> {
    seq![
        seq![0x70u8, 0x3d, 0x3f],
        seq![0x70u8, 0x3d, 0x61, 0x6c, 0x69, 0x76, 0x65],
        seq![0x70u8, 0x3d, 0x63, 0x6c, 0x6f, 0x73, 0x65],
        seq![0x64u8, 0x3d, 0x30],
    ]
}

pub open spec fn starts_with(s: Seq<u8>, p: Seq<u8>) -> bool {
    p.len() <= s.len() && s.take(p.len() as int) == p
}

/// The first index at or after `i` holding `b`, or the length.
pub open spec fn next_index_of(s: Seq<u8>, b: u8, i: int) -> int
    decreases s.len() - i,
{
    if i >= s.len() {
        s.len() as int
    } else if i < 0 {
        next_index_of(s, b, 0)
    } else if s[i] == b {
        i
    } else {
        next_index_of(s, b, i + 1)
    }
}

pub proof fn lemma_next_index_of(s: Seq<u8>, b: u8, i: int)
    requires
        0 <= i,
    ensures
        i <= next_index_of(s, b, i) <= s.len() || (i > s.len() && next_index_of(s, b, i) == s.len()),
        next_index_of(s, b, i) < s.len() ==> s[next_index_of(s, b, i)] == b,
        forall|k: int| i <= k < next_index_of(s, b, i) ==> s[k] != b,
    decreases s.len() - i,
{
    if i < s.len() && s[i] != b {
        lemma_next_index_of(s, b, i + 1);
    }
}

/// Whether the `:`-separated metadata holds `item` as one of its fields, looking from `i`.
pub open spec fn has_field_from(meta: Seq<u8>, item: Seq<u8>, i: int) -> bool
    decreases meta.len() - i,
{
    if i < 0 || i > meta.len() {
        false
    } else {
        proof {
            lemma_next_index_of(meta, COLON, i);
        }
        let e = next_index_of(meta, COLON, i);
        meta.subrange(i, e) == item || (e < meta.len() && has_field_from(meta, item, e + 1))
    }
}

pub open spec fn has_field(meta: Seq<u8>, item: Seq<u8>) -> bool {
    has_field_from(meta, item, 0)
}

/// What a kitty notification after its `99;` asks for: nothing when its metadata has no end,
/// or marks it as control traffic; else its payload.
pub open spec fn kitty_notification(rest: Seq<u8>) -> Option<NotificationModel> {
    let i = next_index_of(rest, SEMICOLON, 0);
    if i >= rest.len() {
        None
    } else {
        let meta = rest.take(i);
        if exists|k: int| 0 <= k < control_fields().len() && has_field(meta, #[trigger] control_fields()[k]) {
            None
        } else {
            Some(NotificationModel { title: Seq::empty(), body: rest.skip(i + 1) })
        }
    }
}

/// The notification an operating system command asks for, if any.
pub open spec fn notification_of(body: Seq<u8>) -> Option<NotificationModel> {
    if starts_with(body, osc99_prefix()) {
        kitty_notification(body.skip(3))
    } else if starts_with(body, osc9_prefix()) {
        let rest = body.skip(2);
        if starts_with(rest, progress_prefix()) {
            None
        } else {
            Some(NotificationModel { title: Seq::empty(), body: rest })
        }
    } else if starts_with(body, osc777_prefix()) {
        let rest = body.skip(11);
        let i = next_index_of(rest, SEMICOLON, 0);
        if i < rest.len() {
            Some(NotificationModel { title: rest.take(i), body: rest.skip(i + 1) })
        } else {
            Some(NotificationModel { title: rest, body: Seq::empty() })
        }
    } else {
        None
    }
}

fn bytes_starting_at(s: &Vec<u8>, start: usize, end: usize) -> (r: Vec<u8>)
    requires
        start <= end <= s@.len(),
    ensures
        r@ == s@.subrange(start as int, end as int),
{
    let mut r: Vec<u8> = Vec::new();
    let mut i: usize = start;
    while i < end
        invariant
            start <= i <= end,
            end <= s@.len(),
            r@ == s@.subrange(start as int, i as int),
        decreases end - i,
    {
        r.push(s[i]);
        i += 1;
        assert(r@ =~= s@.subrange(start as int, i as int));
    }
    r
}

fn has_prefix(s: &Vec<u8>, p: &Vec<u8>) -> (r: bool)
    ensures
        r == starts_with(s@, p@),
{
    if p.len() > s.len() {
        return false;
    }
    let mut i: usize = 0;
    while i < p.len()
        invariant
            p@.len() <= s@.len(),
            i <= p@.len(),
            forall|k: int| 0 <= k < i ==> s@[k] == p@[k],
        decreases p@.len() - i,
    {
        if s[i] != p[i] {
            assert(s@.take(p@.len() as int)[i as int] != p@[i as int]);
            return false;
        }
        i += 1;
    }
    assert(s@.take(p@.len() as int) =~= p@);
    true
}

fn find_byte(s: &Vec<u8>, b: u8, start: usize) -> (r: usize)
    requires
        start <= s@.len(),
    ensures
        r == next_index_of(s@, b, start as int),
{
    let mut i: usize = start;
    while i < s.len()
        invariant
            start <= i <= s@.len(),
            next_index_of(s@, b, start as int) == next_index_of(s@, b, i as int),
        decreases s@.len() - i,
    {
        if s[i] == b {
            return i;
        }
        i += 1;
    }
    i
}

fn same_bytes_in(s: &Vec<u8>, start: usize, end: usize, item: &Vec<u8>) -> (r: bool)
    requires
        start <= end <= s@.len(),
    ensures
        r == (s@.subrange(start as int, end as int) == item@),
{
    if end - start != item.len() {
        return false;
    }
    let mut i: usize = 0;
    while i < item.len()
        invariant
            end - start == item@.len(),
            start <= end <= s@.len(),
            i <= item@.len(),
            forall|k: int| 0 <= k < i ==> s@[start + k] == item@[k],
        decreases item@.len() - i,
    {
        if s[start + i] != item[i] {
            assert(s@.subrange(start as int, end as int)[i as int] != item@[i as int]);
            return false;
        }
        i += 1;
    }
    assert(s@.subrange(start as int, end as int) =~= item@);
    true
}

fn metadata_has_field(meta: &Vec<u8>, item: &Vec<u8>) -> (r: bool)
    ensures
        r == has_field(meta@, item@),
{
    let mut i: usize = 0;
    while i <= meta.len()
        invariant
            i <= meta@.len() + 1,
            has_field(meta@, item@) == has_field_from(meta@, item@, i as int),
        decreases meta@.len() + 1 - i,
    {
        let e = find_byte(meta, COLON, i);
        proof {
            lemma_next_index_of(meta@, COLON, i as int);
        }
        if same_bytes_in(meta, i, e, item) {
            return true;
        }
        if e >= meta.len() {
            return false;
        }
        i = e + 1;
    }
    false
}

fn control_field(k: usize) -> (r: Vec<u8>)
    requires
        k < 4,
    ensures
        r@ == control_fields()[k as int],
{
    let mut r: Vec<u8> = Vec::new();
    if k == 0 {
        r.push(0x70);
        r.push(0x3d);
        r.push(0x3f);
    } else if k == 1 {
        r.push(0x70);
        r.push(0x3d);
        r.push(0x61);
        r.push(0x6c);
        r.push(0x69);
        r.push(0x76);
        r.push(0x65);
    } else if k == 2 {
        r.push(0x70);
        r.push(0x3d);
        r.push(0x63);
        r.push(0x6c);
        r.push(0x6f);
        r.push(0x73);
        r.push(0x65);
    } else {
        r.push(0x64);
        r.push(0x3d);
        r.push(0x30);
    }
    assert(r@ =~= control_fields()[k as int]);
    r
}

fn kitty_notification_exec(rest: &Vec<u8>) -> (r: Option<DesktopNotification>)
    ensures
        match r {
            Some(n) => kitty_notification(rest@) == Some(n@),
            None => kitty_notification(rest@) is None,
        },
{
    let i = find_byte(rest, SEMICOLON, 0);
    if i >= rest.len() {
        return None;
    }
    let meta = bytes_starting_at(rest, 0, i);
    assert(meta@ =~= rest@.take(i as int));
    let mut k: usize = 0;
    while k < 4
        invariant
            k <= 4,
            i < rest@.len(),
            i == next_index_of(rest@, SEMICOLON, 0),
            meta@ == rest@.take(i as int),
            forall|j: int| 0 <= j < k ==> !has_field(meta@, #[trigger] control_fields()[j]),
        decreases 4 - k,
    {
        let field = control_field(k);
        if metadata_has_field(&meta, &field) {
            assert(has_field(rest@.take(i as int), control_fields()[k as int]));
            return None;
        }
        k += 1;
    }
    let body = bytes_starting_at(rest, i + 1, rest.len());
    assert(body@ =~= rest@.skip(i + 1));
    assert(control_fields().len() == 4);
    assert(!exists|j: int| 0 <= j < control_fields().len() && has_field(meta@, #[trigger] control_fields()[j]));
    let title: Vec<u8> = Vec::new();
    assert(title@ =~= Seq::<u8>::empty());
    Some(DesktopNotification { title, body })
}

fn prefix_bytes(which: usize) -> (r: Vec<u8>)
    requires
        which < 4,
    ensures
        which == 0 ==> r@ == osc99_prefix(),
        which == 1 ==> r@ == osc9_prefix(),
        which == 2 ==> r@ == progress_prefix(),
        which == 3 ==> r@ == osc777_prefix(),
{
    let mut r: Vec<u8> = Vec::new();
    if which == 0 {
        r.push(0x39);
        r.push(0x39);
        r.push(0x3b);
        assert(r@ =~= osc99_prefix());
    } else if which == 1 {
        r.push(0x39);
        r.push(0x3b);
        assert(r@ =~= osc9_prefix());
    } else if which == 2 {
        r.push(0x34);
        r.push(0x3b);
        assert(r@ =~= progress_prefix());
    } else {
        r.push(0x37);
        r.push(0x37);
        r.push(0x37);
        r.push(0x3b);
        r.push(0x6e);
        r.push(0x6f);
        r.push(0x74);
        r.push(0x69);
        r.push(0x66);
        r.push(0x79);
        r.push(0x3b);
        assert(r@ =~= osc777_prefix());
    }
    r
}

/// The desktop notification that an operating system command (the text between `ESC ]` and
/// its terminator) asks for: `9;` (except a `9;4;` progress report), `99;` (except kitty
/// control traffic) and `777;notify;`; none for any other command.
pub fn notification_from_osc(body: &Vec<u8>) -> (r: Option<DesktopNotification>)
    ensures
        match r {
            Some(n) => notification_of(body@) == Some(n@),
            None => notification_of(body@) is None,
        },
{
    if has_prefix(body, &prefix_bytes(0)) {
        let rest = bytes_starting_at(body, 3, body.len());
        assert(rest@ =~= body@.skip(3));
        return kitty_notification_exec(&rest);
    }
    if has_prefix(body, &prefix_bytes(1)) {
        let rest = bytes_starting_at(body, 2, body.len());
        assert(rest@ =~= body@.skip(2));
        if has_prefix(&rest, &prefix_bytes(2)) {
            return None;
        }
        let title: Vec<u8> = Vec::new();
        assert(title@ =~= Seq::<u8>::empty());
        return Some(DesktopNotification { title, body: rest });
    }
    if has_prefix(body, &prefix_bytes(3)) {
        let rest = bytes_starting_at(body, 11, body.len());
        assert(rest@ =~= body@.skip(11));
        let i = find_byte(&rest, SEMICOLON, 0);
        if i < rest.len() {
            let title = bytes_starting_at(&rest, 0, i);
            let text = bytes_starting_at(&rest, i + 1, rest.len());
            assert(title@ =~= rest@.take(i as int));
            assert(text@ =~= rest@.skip(i + 1));
            return Some(DesktopNotification { title, body: text });
        }
        proof {
            lemma_next_index_of(rest@, SEMICOLON, 0);
        }
        let text: Vec<u8> = Vec::new();
        assert(text@ =~= Seq::<u8>::empty());
        return Some(DesktopNotification { title: rest, body: text });
    }
    None
}

} // verus!
