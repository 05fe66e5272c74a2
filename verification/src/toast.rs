//! Toasts: cards that announce a capture and go by themselves, unless the
//! pointer rests on them.
use vstd::prelude::*;
use vstd::string::*;

use crate::clock::{Duration, Instant, NANOS_PER_MILLI};
use crate::flash::Ratio;
use crate::history::{label_of_path, name_or_path};
use crate::picker::PickedColor;
use crate::pixmap::{Frame, Picture};
use crate::units::{spec_clamp, spec_max};

verus! {

/// How things move: the milliseconds of a flash and of each part of a toast's
/// life, and how many toasts there are at most.
#[derive(Debug, Clone, Copy, PartialEq, Eq, Structural)]
pub struct Motion {
    pub flash: u32,
    pub toast_in: u32,
    pub toast_idle: u32,
    pub toast_out: u32,
    pub toast_total: u32,
    pub toast_max_stack: u8,
}

/// What a toast announces.
#[derive(Debug)]
pub enum ToastKind {
    Capture { path: String, thumbnail: Frame },
    Notice { title: String, body: String },
    Recording { path: String },
    Swatch { hex: String, rgb: PickedColor },
}

/// One card, with a stopwatch of its life that can be held.
#[derive(Debug)]
pub struct Toast {
    pub id: u64,
    pub kind: ToastKind,
    /// How long it had lived when the stopwatch was last held or let go.
    pub elapsed_at_last_change: Duration,
    /// Since when the stopwatch has been running, if it is.
    pub resumed_at: Option<Instant>,
}

/// What a toast announces, apart from how it is held.
pub enum News {
    Capture { path: Seq<char>, thumbnail: Picture },
    Notice { title: Seq<char>, body: Seq<char> },
    Recording { path: Seq<char> },
    Swatch { hex: Seq<char>, rgb: PickedColor },
}

/// A card, apart from how it is held.
pub struct Card {
    pub id: u64,
    pub news: News,
    pub elapsed_at_last_change: Duration,
    pub resumed_at: Option<Instant>,
}

impl View for ToastKind {
    type V = News;

    open spec fn view(&self) -> News {
        match *self {
            ToastKind::Capture { path, thumbnail } => News::Capture {
                path: path@,
                thumbnail: thumbnail@,
            },
            ToastKind::Notice { title, body } => News::Notice { title: title@, body: body@ },
            ToastKind::Recording { path } => News::Recording { path: path@ },
            ToastKind::Swatch { hex, rgb } => News::Swatch { hex: hex@, rgb },
        }
    }
}

impl View for Toast {
    type V = Card;

    open spec fn view(&self) -> Card {
        Card {
            id: self.id,
            news: self.kind@,
            elapsed_at_last_change: self.elapsed_at_last_change,
            resumed_at: self.resumed_at,
        }
    }
}

/// Cards, apart from how they are held.
pub open spec fn cards(list: Seq<Toast>) -> Seq<Card> {
    list.map_values(|t: Toast| t@)
}

impl Card {
    /// How long the card has lived, the time it was held left out.
    pub open spec fn elapsed(self, now: Instant) -> Duration {
        match self.resumed_at {
            Some(started) => self.elapsed_at_last_change.spec_plus(now.spec_since(started)),
            None => self.elapsed_at_last_change,
        }
    }

    pub open spec fn paused(self, now: Instant) -> Card {
        Card { elapsed_at_last_change: self.elapsed(now), resumed_at: None, ..self }
    }

    pub open spec fn resumed(self, now: Instant) -> Card {
        match self.resumed_at {
            Some(_) => self,
            None => Card { resumed_at: Some(now), ..self },
        }
    }
}

impl Toast {
    /// How long the toast has lived, the time it was held left out.
    pub fn elapsed(&self, now: Instant) -> (r: Duration)
        ensures
            r == self@.elapsed(now),
    {
        match self.resumed_at {
            Some(started) => self.elapsed_at_last_change.plus(now.since(started)),
            None => self.elapsed_at_last_change,
        }
    }

    /// Holds the stopwatch.
    pub fn pause(&mut self, now: Instant)
        ensures
            final(self)@ == old(self)@.paused(now),
    {
        if let Some(started) = self.resumed_at.take() {
            self.elapsed_at_last_change = self.elapsed_at_last_change.plus(now.since(started));
        }
    }

    /// Lets the stopwatch go on.
    pub fn resume(&mut self, now: Instant)
        ensures
            final(self)@ == old(self)@.resumed(now),
    {
        if self.resumed_at.is_none() {
            self.resumed_at = Some(now);
        }
    }
}

/// Holding a held stopwatch, or letting a running one go, changes nothing; held,
/// it stands still.
pub proof fn law_stopwatch_can_be_held(t: Card, now: Instant, later: Instant)
    ensures
        t.paused(now).paused(later) == t.paused(now),
        t.resumed(now).resumed(later) == t.resumed(now),
        t.paused(now).elapsed(later) == t.elapsed(now),
        t.paused(now).resumed(later).elapsed(later) == t.elapsed(now),
{
}

/// What happens to the stack.
#[derive(Debug, Clone, Copy, PartialEq, Eq, Structural)]
pub enum Message {
    Tick,
    Hovered(u64),
    Unhovered(u64),
    Clicked(u64),
}

/// What the stack asks for.
#[derive(Debug, PartialEq, Eq)]
pub enum Action {
    Nothing,
    /// Open this file in the editor.
    Open(String),
    /// Show the folder that this file is in.
    OpenDir(String),
}

/// What the stack asks for, apart from how it is held.
pub enum Wanted {
    Nothing,
    Open(Seq<char>),
    OpenDir(Seq<char>),
}

impl View for Action {
    type V = Wanted;

    open spec fn view(&self) -> Wanted {
        match *self {
            Action::Nothing => Wanted::Nothing,
            Action::Open(path) => Wanted::Open(path@),
            Action::OpenDir(path) => Wanted::OpenDir(path@),
        }
    }
}

/// Everything about the stack: its cards from the oldest to the newest.
pub struct Stack {
    pub toasts: Seq<Card>,
    pub next_id: u64,
}

/// The newest `max` of a list.
pub open spec fn newest(list: Seq<Card>, max: int) -> Seq<Card> {
    if list.len() > max {
        list.skip(list.len() - max)
    } else {
        list
    }
}

/// How many cards there can be: at least one.
pub open spec fn stack_limit(motion: Motion) -> int {
    spec_max(motion.toast_max_stack as int, 1)
}

/// How long a card lives.
pub open spec fn lifetime(motion: Motion) -> int {
    motion.toast_total * NANOS_PER_MILLI
}

/// The cards that have not lived out their time.
pub open spec fn alive(list: Seq<Card>, now: Instant, total: int) -> Seq<Card>
    decreases list.len(),
{
    if list.len() == 0 {
        Seq::empty()
    } else if list.last().elapsed(now).nanos < total {
        alive(list.drop_last(), now, total).push(list.last())
    } else {
        alive(list.drop_last(), now, total)
    }
}

/// The place of the first card with an id, from place `i` on.
pub open spec fn card_index(list: Seq<Card>, id: u64, i: int) -> Option<int>
    decreases list.len() - i,
{
    if i < 0 || i >= list.len() {
        None
    } else if list[i].id == id {
        Some(i)
    } else {
        card_index(list, id, i + 1)
    }
}

impl Stack {
    pub open spec fn pushed(self, news: News, motion: Motion, now: Instant) -> Stack {
        Stack {
            toasts: newest(
                self.toasts.push(
                    Card {
                        id: self.next_id,
                        news,
                        elapsed_at_last_change: Duration { nanos: 0 },
                        resumed_at: Some(now),
                    },
                ),
                stack_limit(motion),
            ),
            next_id: if self.next_id == u64::MAX {
                0
            } else {
                (self.next_id + 1) as u64
            },
        }
    }

    /// The stack after a message.
    pub open spec fn after(self, message: Message, now: Instant, motion: Motion) -> Stack {
        match message {
            Message::Tick => Stack { toasts: alive(self.toasts, now, lifetime(motion)), ..self },
            Message::Hovered(id) => match card_index(self.toasts, id, 0) {
                Some(i) => Stack {
                    toasts: self.toasts.update(i, self.toasts[i].paused(now)),
                    ..self
                },
                None => self,
            },
            Message::Unhovered(id) => match card_index(self.toasts, id, 0) {
                Some(i) => Stack {
                    toasts: self.toasts.update(i, self.toasts[i].resumed(now)),
                    ..self
                },
                None => self,
            },
            Message::Clicked(_) => self,
        }
    }

    /// What a message asks for.
    pub open spec fn answer(self, message: Message) -> Wanted {
        match message {
            Message::Clicked(id) => match card_index(self.toasts, id, 0) {
                Some(i) => match self.toasts[i].news {
                    News::Capture { path, thumbnail } => Wanted::Open(path),
                    News::Recording { path } => Wanted::OpenDir(path),
                    _ => Wanted::Nothing,
                },
                None => Wanted::Nothing,
            },
            _ => Wanted::Nothing,
        }
    }
}

/// The stack of toasts.
#[derive(Debug)]
pub struct ToastStack {
    toasts: Vec<Toast>,
    next_id: u64,
}

impl View for ToastStack {
    type V = Stack;

    closed spec fn view(&self) -> Stack {
        Stack { toasts: cards(self.toasts@), next_id: self.next_id }
    }
}

impl Default for ToastStack {
    fn default() -> (r: Self)
        ensures
            r@ == (Stack { toasts: Seq::empty(), next_id: 0 }),
    {
        let r = ToastStack { toasts: Vec::new(), next_id: 0 };
        assert(r@.toasts =~= Seq::<Card>::empty());
        r
    }
}

proof fn lemma_card_index(list: Seq<Card>, id: u64, i: int)
    requires
        0 <= i,
    ensures
        card_index(list, id, i) matches Some(k) ==> i <= k < list.len() && list[k].id == id,
    decreases list.len() - i,
{
    if i < list.len() && list[i].id != id {
        lemma_card_index(list, id, i + 1);
    }
}

impl ToastStack {
    pub fn is_empty(&self) -> (r: bool)
        ensures
            r == (self@.toasts.len() == 0),
    {
        self.toasts.len() == 0
    }

    pub fn len(&self) -> (r: usize)
        ensures
            r == self@.toasts.len(),
    {
        self.toasts.len()
    }

    /// The cards, from the oldest to the newest.
    pub fn toasts(&self) -> (r: &Vec<Toast>)
        ensures
            cards(r@) == self@.toasts,
    {
        &self.toasts
    }

    /// Announces a screenshot.
    pub fn push(&mut self, path: String, thumbnail: Frame, motion: &Motion, now: Instant)
        ensures
            final(self)@ == old(self)@.pushed(
                (News::Capture { path: path@, thumbnail: thumbnail@ }),
                *motion,
                now,
            ),
    {
        self.push_kind(ToastKind::Capture { path, thumbnail }, motion, now);
    }

    /// Announces something in words.
    pub fn push_notice(&mut self, title: String, body: String, motion: &Motion, now: Instant)
        ensures
            final(self)@ == old(self)@.pushed(
                (News::Notice { title: title@, body: body@ }),
                *motion,
                now,
            ),
    {
        self.push_kind(ToastKind::Notice { title, body }, motion, now);
    }

    /// Announces a recording.
    pub fn push_recording(&mut self, path: String, motion: &Motion, now: Instant)
        ensures
            final(self)@ == old(self)@.pushed((News::Recording { path: path@ }), *motion, now),
    {
        self.push_kind(ToastKind::Recording { path }, motion, now);
    }

    /// Announces a picked colour.
    pub fn push_swatch(&mut self, hex: String, rgb: PickedColor, motion: &Motion, now: Instant)
        ensures
            final(self)@ == old(self)@.pushed((News::Swatch { hex: hex@, rgb }), *motion, now),
    {
        self.push_kind(ToastKind::Swatch { hex, rgb }, motion, now);
    }

    fn push_kind(&mut self, kind: ToastKind, motion: &Motion, now: Instant)
        ensures
            final(self)@ == old(self)@.pushed(kind@, *motion, now),
    {
        let id: u64 = self.next_id;
        self.next_id = if id == u64::MAX {
            0
        } else {
            id + 1
        };
        self.toasts.push(
            Toast {
                id,
                kind,
                elapsed_at_last_change: Duration { nanos: 0 },
                resumed_at: Some(now),
            },
        );
        let max: usize = if motion.toast_max_stack < 1 {
            1
        } else {
            motion.toast_max_stack as usize
        };
        let ghost all = cards(self.toasts@);
        let ghost after = self.next_id;
        proof {
            assert(all =~= old(self)@.toasts.push(
                Card {
                    id,
                    news: kind@,
                    elapsed_at_last_change: Duration { nanos: 0 },
                    resumed_at: Some(now),
                },
            ));
        }
        let ghost mut dropped: int = 0;
        assert(all.skip(0) =~= all);
        while self.toasts.len() > max
            invariant
                max >= 1,
                0 <= dropped <= all.len(),
                cards(self.toasts@) == all.skip(dropped),
                self.next_id == after,
                dropped > 0 ==> self.toasts@.len() >= max,
            decreases self.toasts@.len(),
        {
            let ghost held = self.toasts@;
            self.toasts.remove(0);
            proof {
                assert(cards(self.toasts@) =~= cards(held).remove(0));
                assert(all.skip(dropped).remove(0) =~= all.skip(dropped + 1));
                dropped = dropped + 1;
            }
        }
        assert(cards(self.toasts@) =~= newest(all, max as int));
    }

    fn find(&self, id: u64) -> (r: Option<usize>)
        ensures
            match (r, card_index(self@.toasts, id, 0)) {
                (Some(a), Some(b)) => a == b && a < self.toasts@.len(),
                (None, None) => true,
                _ => false,
            },
    {
        let mut i: usize = 0;
        while i < self.toasts.len()
            invariant
                i <= self.toasts@.len(),
                card_index(self@.toasts, id, 0) == card_index(self@.toasts, id, i as int),
            decreases self.toasts@.len() - i,
        {
            assert(self@.toasts[i as int] == self.toasts@[i as int]@);
            if self.toasts[i].id == id {
                return Some(i);
            }
            i = i + 1;
        }
        None
    }

    fn drop_expired(&mut self, now: Instant, total: u128)
        ensures
            final(self)@ == (Stack {
                toasts: alive(old(self)@.toasts, now, total as int),
                ..old(self)@
            }),
    {
        let ghost all = self@.toasts;
        let mut kept: Vec<Toast> = Vec::new();
        let n: usize = self.toasts.len();
        let mut i: usize = 0;
        proof {
            assert(all.take(0) =~= Seq::<Card>::empty());
            assert(cards(kept@) =~= Seq::<Card>::empty());
            assert(all.skip(0) =~= all);
        }
        while i < n
            invariant
                n == all.len(),
                i <= n,
                cards(self.toasts@) == all.skip(i as int),
                self.next_id == old(self).next_id,
                cards(kept@) == alive(all.take(i as int), now, total as int),
            decreases n - i,
        {
            let ghost held = self.toasts@;
            let ghost before = kept@;
            assert(cards(held).len() == held.len());
            let toast = self.toasts.remove(0);
            proof {
                assert(toast@ == cards(held)[0]);
                assert(toast@ == all[i as int]);
                assert(cards(self.toasts@) =~= cards(held).remove(0));
                assert(cards(before.push(toast)) =~= cards(before).push(toast@));
                assert(all.take(i + 1).drop_last() =~= all.take(i as int));
                assert(all.take(i + 1).last() == toast@);
                assert(all.skip(i as int).remove(0) =~= all.skip(i + 1));
            }
            if toast.elapsed(now).nanos < total {
                kept.push(toast);
            }
            i = i + 1;
        }
        assert(all.take(n as int) =~= all);
        self.toasts = kept;
    }

    /// Takes one message in.
    pub fn update(&mut self, message: Message, now: Instant, motion: &Motion) -> (r: Action)
        ensures
            final(self)@ == old(self)@.after(message, now, *motion),
            r@ == old(self)@.answer(message),
    {
        match message {
            Message::Tick => {
                self.drop_expired(now, motion.toast_total as u128 * NANOS_PER_MILLI);
                Action::Nothing
            },
            Message::Hovered(id) => {
                if let Some(i) = self.find(id) {
                    let ghost before = self@.toasts;
                    let mut toast = self.toasts.remove(i);
                    toast.pause(now);
                    self.toasts.insert(i, toast);
                    assert(self@.toasts =~= before.update(
                        i as int,
                        before[i as int].paused(now),
                    ));
                }
                Action::Nothing
            },
            Message::Unhovered(id) => {
                if let Some(i) = self.find(id) {
                    let ghost before = self@.toasts;
                    let mut toast = self.toasts.remove(i);
                    toast.resume(now);
                    self.toasts.insert(i, toast);
                    assert(self@.toasts =~= before.update(
                        i as int,
                        before[i as int].resumed(now),
                    ));
                }
                Action::Nothing
            },
            Message::Clicked(id) => match self.find(id) {
                Some(i) => match &self.toasts[i].kind {
                    ToastKind::Capture { path, thumbnail } => Action::Open(path.clone()),
                    ToastKind::Recording { path } => Action::OpenDir(path.clone()),
                    ToastKind::Notice { title, body } => Action::Nothing,
                    ToastKind::Swatch { hex, rgb } => Action::Nothing,
                },
                None => Action::Nothing,
            },
        }
    }
}

/// The stack never holds more cards than its limit, and the one just pushed is
/// among them, last.
pub proof fn law_stack_keeps_the_newest(s: Stack, news: News, motion: Motion, now: Instant)
    ensures
        s.pushed(news, motion, now).toasts.len() <= stack_limit(motion),
        s.pushed(news, motion, now).toasts.len() > 0,
        s.pushed(news, motion, now).toasts.last().news == news,
        s.toasts.len() < stack_limit(motion) ==> s.pushed(news, motion, now).toasts.drop_last()
            == s.toasts,
{
    let t = s.pushed(news, motion, now);
    if s.toasts.len() < stack_limit(motion) {
        assert(t.toasts.drop_last() =~= s.toasts);
    }
}

/// A card that the pointer rests on is not dropped, however much time goes by.
pub proof fn law_hovered_cards_stay(list: Seq<Card>, i: int, later: Instant, total: int)
    requires
        0 <= i < list.len(),
        list[i].resumed_at is None,
        list[i].elapsed_at_last_change.nanos < total,
    ensures
        alive(list, later, total).contains(list[i]),
    decreases list.len(),
{
    let front = list.drop_last();
    let out = alive(list, later, total);
    if i < front.len() {
        assert(front[i] == list[i]);
        law_hovered_cards_stay(front, i, later, total);
        let kept = alive(front, later, total);
        let k = choose|k: int| 0 <= k < kept.len() && kept[k] == list[i];
        assert(out[k] == list[i]);
    } else {
        assert(out.last() == list[i]);
        assert(out[out.len() - 1] == list[i]);
    }
}

/// A tick drops exactly the cards whose time is over.
pub proof fn law_tick_drops_what_is_over(list: Seq<Card>, now: Instant, total: int)
    ensures
        forall|k: int|
            0 <= k < alive(list, now, total).len() ==> (#[trigger] alive(
                list,
                now,
                total,
            )[k]).elapsed(now).nanos < total,
        forall|t: Card|
            list.contains(t) && t.elapsed(now).nanos < total ==> #[trigger] alive(
                list,
                now,
                total,
            ).contains(t),
    decreases list.len(),
{
    if list.len() > 0 {
        let front = list.drop_last();
        law_tick_drops_what_is_over(front, now, total);
        let kept = alive(front, now, total);
        let out = alive(list, now, total);
        assert forall|t: Card|
            list.contains(t) && t.elapsed(now).nanos < total implies #[trigger] out.contains(
            t,
        ) by {
            let i = choose|i: int| 0 <= i < list.len() && list[i] == t;
            if i < front.len() {
                assert(front[i] == t);
                assert(front.contains(t));
                assert(kept.contains(t));
                let k = choose|k: int| 0 <= k < kept.len() && kept[k] == t;
                assert(out[k] == t);
            } else {
                assert(out[out.len() - 1] == t);
            }
        }
    }
}

/// How much of a span has gone by: all of it where it has no length.
pub open spec fn spec_fraction(elapsed: Duration, total: Duration) -> Ratio {
    if total.nanos == 0 {
        Ratio::all()
    } else if elapsed.nanos >= total.nanos {
        Ratio { part: total.nanos, whole: total.nanos }
    } else {
        Ratio { part: elapsed.nanos, whole: total.nanos }
    }
}

pub fn fraction(elapsed: Duration, total: Duration) -> (r: Ratio)
    ensures
        r == spec_fraction(elapsed, total),
        r.wf(),
{
    if total.nanos == 0 {
        Ratio { part: 1, whole: 1 }
    } else if elapsed.nanos >= total.nanos {
        Ratio { part: total.nanos, whole: total.nanos }
    } else {
        Ratio { part: elapsed.nanos, whole: total.nanos }
    }
}

pub open spec fn millis(ms: u32) -> Duration {
    Duration { nanos: (ms * NANOS_PER_MILLI) as u128 }
}

fn from_ms(ms: u32) -> (r: Duration)
    ensures
        r == millis(ms),
{
    Duration { nanos: ms as u128 * NANOS_PER_MILLI }
}

/// How far a card is slid aside, as a part of its width, and how opaque it is:
/// it slides in while it appears, rests, and fades where it stands.
pub open spec fn spec_phase(motion: Motion, elapsed: Duration) -> (Ratio, Ratio) {
    let shown = millis(motion.toast_in);
    let rested = shown.nanos + millis(motion.toast_idle).nanos;
    if elapsed.nanos < shown.nanos {
        let progress = spec_fraction(elapsed, shown);
        (progress.spec_rest(), progress)
    } else if elapsed.nanos < rested {
        (Ratio::none(), Ratio::all())
    } else {
        let fading = Duration { nanos: (elapsed.nanos - rested) as u128 };
        (Ratio::none(), spec_fraction(fading, millis(motion.toast_out)).spec_rest())
    }
}

pub fn phase(motion: &Motion, elapsed: Duration) -> (r: (Ratio, Ratio))
    ensures
        r == spec_phase(*motion, elapsed),
        r.0.wf(),
        r.1.wf(),
{
    let shown = from_ms(motion.toast_in);
    let rested: u128 = shown.nanos + from_ms(motion.toast_idle).nanos;
    if elapsed.nanos < shown.nanos {
        let progress = fraction(elapsed, shown);
        (progress.rest(), progress)
    } else if elapsed.nanos < rested {
        (Ratio { part: 0, whole: 1 }, Ratio { part: 1, whole: 1 })
    } else {
        let fading = Duration { nanos: elapsed.nanos - rested };
        (Ratio { part: 0, whole: 1 }, fraction(fading, from_ms(motion.toast_out)).rest())
    }
}

/// How much of a card's life is left.
pub open spec fn life_left(motion: Motion, elapsed: Duration) -> Ratio {
    spec_fraction(elapsed, millis(motion.toast_total)).spec_rest()
}

/// How much of a card's life is left.
pub fn life_fraction(motion: &Motion, elapsed: Duration) -> (r: Ratio)
    ensures
        r == life_left(*motion, elapsed),
        r.wf(),
{
    fraction(elapsed, from_ms(motion.toast_total)).rest()
}

/// A card begins slid aside and unseen, rests in full view, and is gone by the
/// end of its life, if the parts of that add up to it.
pub proof fn law_card_comes_and_goes(motion: Motion, elapsed: Duration)
    requires
        motion.toast_in > 0,
        motion.toast_in + motion.toast_idle + motion.toast_out == motion.toast_total,
    ensures
        spec_phase(motion, (Duration { nanos: 0 })).0.is_all(),
        spec_phase(motion, (Duration { nanos: 0 })).1.is_none(),
        millis(motion.toast_in).nanos <= elapsed.nanos < millis(motion.toast_in).nanos + millis(
            motion.toast_idle,
        ).nanos ==> spec_phase(motion, elapsed) == (Ratio::none(), Ratio::all()),
        elapsed.nanos >= millis(motion.toast_total).nanos ==> spec_phase(
            motion,
            elapsed,
        ).1.is_none(),
{
}

/// The height of a stack of cards, in pixels: the cards and the gaps between
/// them, at least one card. `list_row` and `gap` are in subpixels; a card is two
/// rows high.
pub open spec fn stack_height(list_row: u32, gap: u32, count: int) -> int {
    let n = spec_max(count, 1);
    spec_clamp((n * (2 * list_row) + (n - 1) * gap + 128) / 256, 0, u32::MAX as int)
}

pub fn card_stack_height(list_row: u32, gap: u32, count: usize) -> (r: u32)
    ensures
        r == stack_height(list_row, gap, count as int),
{
    let n: u128 = if count < 1 {
        1
    } else {
        count as u128
    };
    proof {
        assert(0 <= n * (2 * list_row) <= 0xffff_ffff_ffff_ffff * 0x1_ffff_fffe)
            by (nonlinear_arith)
            requires
                1 <= n <= 0xffff_ffff_ffff_ffff,
                0 <= list_row <= 0xffff_ffff,
        ;
        assert(0 <= (n - 1) * gap <= 0xffff_ffff_ffff_ffff * 0xffff_ffff) by (nonlinear_arith)
            requires
                1 <= n <= 0xffff_ffff_ffff_ffff,
                0 <= gap <= 0xffff_ffff,
        ;
    }
    let height: u128 = (n * (2 * list_row as u128) + (n - 1) * gap as u128 + 128) / 256;
    if height > u32::MAX as u128 {
        u32::MAX
    } else {
        height as u32
    }
}

/// A stack of more cards is no lower, and one of none is as high as one of one.
pub proof fn law_stack_grows_with_its_cards(list_row: u32, gap: u32, fewer: int, more: int)
    requires
        0 <= fewer <= more,
    ensures
        stack_height(list_row, gap, fewer) <= stack_height(list_row, gap, more),
        stack_height(list_row, gap, 0) == stack_height(list_row, gap, 1),
{
    let a = spec_max(fewer, 1);
    let b = spec_max(more, 1);
    assert(a * (2 * list_row) <= b * (2 * list_row)) by (nonlinear_arith)
        requires
            a <= b,
            list_row >= 0,
    ;
    assert((a - 1) * gap <= (b - 1) * gap) by (nonlinear_arith)
        requires
            a <= b,
            gap >= 0,
    ;
}

/// What a card's tile shows.
#[derive(Debug, Clone, Copy, PartialEq, Eq, Structural)]
pub enum Tile {
    /// The screenshot.
    Thumbnail,
    /// Nothing.
    Blank,
    /// The picked colour.
    Swatch(PickedColor),
}

/// What a card says.
#[derive(Debug)]
pub struct CardText {
    pub title: String,
    pub body: String,
    /// Whether the body is set in the fixed-width face.
    pub mono: bool,
    pub tile: Tile,
}

/// What a card says, apart from how it is held.
pub open spec fn card_says(news: News) -> (Seq<char>, Seq<char>, bool, Tile) {
    match news {
        News::Capture { path, thumbnail } => (
            "Screenshot saved"@,
            name_or_path(path),
            false,
            Tile::Thumbnail,
        ),
        News::Notice { title, body } => (title, body, false, Tile::Blank),
        News::Recording { path } => ("Recording saved"@, name_or_path(path), false, Tile::Blank),
        News::Swatch { hex, rgb } => ("Color picked"@, hex, true, Tile::Swatch(rgb)),
    }
}

/// What a card says.
pub fn card_text(kind: &ToastKind) -> (r: CardText)
    ensures
        (r.title@, r.body@, r.mono, r.tile) == card_says(kind@),
{
    match kind {
        ToastKind::Capture { path, thumbnail } => CardText {
            title: "Screenshot saved".to_owned(),
            body: label_of_path(path),
            mono: false,
            tile: Tile::Thumbnail,
        },
        ToastKind::Notice { title, body } => CardText {
            title: title.clone(),
            body: body.clone(),
            mono: false,
            tile: Tile::Blank,
        },
        ToastKind::Recording { path } => CardText {
            title: "Recording saved".to_owned(),
            body: label_of_path(path),
            mono: false,
            tile: Tile::Blank,
        },
        ToastKind::Swatch { hex, rgb } => CardText {
            title: "Color picked".to_owned(),
            body: hex.clone(),
            mono: true,
            tile: Tile::Swatch(*rgb),
        },
    }
}

} // verus!
