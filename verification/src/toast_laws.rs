//! What toasts, the flash and the countdown come to, told by the clock.
use vstd::prelude::*;
use vstd::string::*;

use crate::clock::{Duration, Instant};
use crate::countdown::Countdown;
use crate::flash::{Flash, Ratio, fade_of};
use crate::history::name_or_path;
use crate::toast::{
    Card, Message, Motion, News, Stack, Tile, Wanted, alive, card_index, card_says, life_left,
    spec_phase, stack_height,
};

verus! {

/// The nanoseconds that a card has lived: those counted so far, and those since its
/// stopwatch last began to run, if it runs.
pub open spec fn lived(card: Card, now: Instant) -> int {
    let counted = card.elapsed_at_last_change.nanos as int;
    match card.resumed_at {
        Some(since) => if now.nanos <= since.nanos {
            counted
        } else if counted + (now.nanos - since.nanos) > u128::MAX {
            u128::MAX as int
        } else {
            counted + (now.nanos - since.nanos)
        },
        None => counted,
    }
}

/// A tick drops the cards that have lived as long as cards do, and no others; those
/// that stay keep their order.
pub proof fn law_a_tick_drops_the_expired(s: Stack, now: Instant, motion: Motion)
    ensures
        s.after(Message::Tick, now, motion).toasts == s.toasts.filter(
            |card: Card| lived(card, now) < motion.toast_total * 1_000_000,
        ),
{
    lemma_alive_is_a_filter(s.toasts, now, motion.toast_total * 1_000_000);
}

proof fn lemma_alive_is_a_filter(list: Seq<Card>, now: Instant, total: int)
    ensures
        alive(list, now, total) == list.filter(|card: Card| lived(card, now) < total),
    decreases list.len(),
{
    reveal(Seq::filter);
    let young = |card: Card| lived(card, now) < total;
    if list.len() > 0 {
        lemma_alive_is_a_filter(list.drop_last(), now, total);
        assert(lived(list.last(), now) == list.last().elapsed(now).nanos);
        assert(young(list.last()) == (list.last().elapsed(now).nanos < total));
    }
    assert(alive(list, now, total) =~= list.filter(young));
}

/// Whether card `i` is the first with an id.
pub open spec fn is_first(s: Stack, id: u64, i: int) -> bool {
    &&& 0 <= i < s.toasts.len()
    &&& s.toasts[i].id == id
    &&& forall|j: int| 0 <= j < i ==> (#[trigger] s.toasts[j]).id != id
}

proof fn lemma_first(list: Seq<Card>, id: u64, from: int, i: int)
    requires
        0 <= from <= i < list.len(),
        list[i].id == id,
        forall|j: int| from <= j < i ==> (#[trigger] list[j]).id != id,
    ensures
        card_index(list, id, from) == Some(i),
    decreases i - from,
{
    if from < i {
        assert(list[from].id != id);
        lemma_first(list, id, from + 1, i);
    }
}

proof fn lemma_none(list: Seq<Card>, id: u64, from: int)
    requires
        0 <= from <= list.len(),
        forall|j: int| from <= j < list.len() ==> (#[trigger] list[j]).id != id,
    ensures
        card_index(list, id, from) is None,
    decreases list.len() - from,
{
    if from < list.len() {
        assert(list[from].id != id);
        lemma_none(list, id, from + 1);
    }
}

/// While the pointer rests on a card, the card does not age; once the pointer leaves, it
/// ages from where it was. Nothing happens to the other cards.
pub proof fn law_a_card_under_the_pointer_does_not_age(
    s: Stack,
    id: u64,
    i: int,
    now: Instant,
    left: Instant,
    later: Instant,
    motion: Motion,
)
    requires
        is_first(s, id, i),
        left.nanos <= later.nanos,
        lived(s.toasts[i], now) + later.nanos - left.nanos <= u128::MAX,
    ensures
        ({
            let t = s.after(Message::Hovered(id), now, motion);
            let u = t.after(Message::Unhovered(id), left, motion);
            &&& t.toasts.len() == s.toasts.len() && u.toasts.len() == s.toasts.len()
            &&& forall|j: int|
                0 <= j < s.toasts.len() && j != i ==> #[trigger] t.toasts[j] == s.toasts[j]
            &&& forall|j: int|
                0 <= j < s.toasts.len() && j != i ==> #[trigger] u.toasts[j] == s.toasts[j]
            &&& t.toasts[i].news == s.toasts[i].news && t.toasts[i].id == id
            &&& u.toasts[i].news == s.toasts[i].news && u.toasts[i].id == id
            &&& lived(t.toasts[i], later) == lived(s.toasts[i], now)
            &&& lived(u.toasts[i], later) == lived(s.toasts[i], now) + (later.nanos - left.nanos)
        }),
{
    lemma_first(s.toasts, id, 0, i);
    let t = s.after(Message::Hovered(id), now, motion);
    assert(t.toasts[i].id == id);
    assert forall|j: int| 0 <= j < i implies (#[trigger] t.toasts[j]).id != id by {
        assert(t.toasts[j] == s.toasts[j]);
    }
    lemma_first(t.toasts, id, 0, i);
    assert(lived(s.toasts[i], now) == s.toasts[i].elapsed(now).nanos);
}

/// A click on a screenshot's card opens the screenshot, one on a recording's shows its
/// folder, and any other click asks for nothing. Clicks change no card, and nothing but
/// a click asks for anything.
pub proof fn law_a_click_opens_what_the_card_announces(
    s: Stack,
    id: u64,
    i: int,
    now: Instant,
    motion: Motion,
)
    ensures
        s.after(Message::Clicked(id), now, motion) == s,
        is_first(s, id, i) ==> s.answer(Message::Clicked(id)) == (match s.toasts[i].news {
            News::Capture { path, thumbnail } => Wanted::Open(path),
            News::Recording { path } => Wanted::OpenDir(path),
            News::Notice { title, body } => Wanted::Nothing,
            News::Swatch { hex, rgb } => Wanted::Nothing,
        }),
        (forall|j: int| 0 <= j < s.toasts.len() ==> (#[trigger] s.toasts[j]).id != id) ==> {
            &&& s.answer(Message::Clicked(id)) is Nothing
            &&& s.after(Message::Hovered(id), now, motion) == s
            &&& s.after(Message::Unhovered(id), now, motion) == s
        },
        s.answer(Message::Tick) is Nothing,
        s.answer(Message::Hovered(id)) is Nothing,
        s.answer(Message::Unhovered(id)) is Nothing,
{
    if is_first(s, id, i) {
        lemma_first(s.toasts, id, 0, i);
    }
    if forall|j: int| 0 <= j < s.toasts.len() ==> (#[trigger] s.toasts[j]).id != id {
        lemma_none(s.toasts, id, 0);
    }
}

/// A new card comes last, with an age of nothing and a number of its own; of the others
/// the oldest make room for it, as many as there are too many.
pub proof fn law_a_new_card_comes_last(
    s: Stack,
    news: News,
    motion: Motion,
    now: Instant,
    later: Instant,
)
    requires
        now.nanos <= later.nanos,
    ensures
        ({
            let t = s.pushed(news, motion, now);
            let most = if motion.toast_max_stack < 1 {
                1
            } else {
                motion.toast_max_stack as int
            };
            let gone = if s.toasts.len() + 1 > most {
                s.toasts.len() + 1 - most
            } else {
                0
            };
            &&& t.toasts.len() == s.toasts.len() + 1 - gone
            &&& forall|j: int|
                0 <= j < t.toasts.len() - 1 ==> #[trigger] t.toasts[j] == s.toasts[j + gone]
            &&& t.toasts.last().news == news
            &&& t.toasts.last().id == s.next_id
            &&& t.next_id != s.next_id
            &&& lived(t.toasts.last(), later) == later.nanos - now.nanos
        }),
{
}

/// Whether a ratio is `part` of `whole`.
pub open spec fn is_part(r: Ratio, part: int, whole: int) -> bool {
    r.part * whole == part * r.whole
}

/// A card slides in evenly while it appears evenly, rests, and fades evenly; after that
/// it is not seen.
pub proof fn law_a_card_moves_evenly(motion: Motion, age: Duration)
    ensures
        ({
            let (aside, seen) = spec_phase(motion, age);
            let arriving = motion.toast_in * 1_000_000;
            let resting = motion.toast_idle * 1_000_000;
            let leaving = motion.toast_out * 1_000_000;
            let fading = age.nanos - arriving - resting;
            &&& age.nanos < arriving ==> is_part(aside, arriving - age.nanos, arriving) && is_part(
                seen,
                age.nanos as int,
                arriving,
            )
            &&& age.nanos >= arriving ==> is_part(aside, 0, 1)
            &&& age.nanos >= arriving && fading < 0 ==> is_part(seen, 1, 1)
            &&& 0 <= fading < leaving ==> is_part(seen, leaving - fading, leaving)
            &&& fading >= 0 && fading >= leaving ==> is_part(seen, 0, 1)
        }),
{
}

/// What is left of a card's life runs out evenly.
pub proof fn law_a_life_runs_out_evenly(motion: Motion, age: Duration)
    ensures
        ({
            let left = life_left(motion, age);
            let whole = motion.toast_total * 1_000_000;
            &&& age.nanos < whole ==> is_part(left, whole - age.nanos, whole)
            &&& age.nanos >= whole ==> is_part(left, 0, 1)
        }),
{
}

/// A stack is as high as its cards, of two rows each, and the gaps between them, to the
/// nearest pixel; without a card it is as high as with one.
pub proof fn law_a_stack_is_as_high_as_its_cards(row: u32, gap: u32, count: int)
    requires
        0 <= count,
    ensures
        ({
            let n = if count < 1 {
                1
            } else {
                count
            };
            let high = stack_height(row, gap, count);
            let tall = 2 * (n * row) + (n - 1) * gap;
            &&& 0 <= high <= u32::MAX
            &&& 256 * high - tall <= 128
            &&& high < u32::MAX ==> 256 * high - tall > -128
        }),
{
    let n = if count < 1 {
        1
    } else {
        count
    };
    assert(n * (2 * row) == 2 * (n * row)) by (nonlinear_arith);
    assert(n * row >= 0 && (n - 1) * gap >= 0) by (nonlinear_arith)
        requires
            n >= 1,
            row >= 0,
            gap >= 0,
    ;
}

/// A card says what has happened and to what: the name of the file, the words of a
/// notice, or the digits of a colour beside the colour itself.
pub proof fn law_a_card_says_what_happened(news: News)
    ensures
        ({
            let (title, body, mono, tile) = card_says(news);
            match news {
                News::Capture { path, thumbnail } => title == "Screenshot saved"@ && body
                    == name_or_path(path) && !mono && tile == Tile::Thumbnail,
                News::Recording { path } => title == "Recording saved"@ && body == name_or_path(
                    path,
                ) && !mono && tile == Tile::Blank,
                News::Notice { title: words, body: more } => title == words && body == more && !mono
                    && tile == Tile::Blank,
                News::Swatch { hex, rgb } => title == "Color picked"@ && body == hex && mono && tile
                    == Tile::Swatch(rgb),
            }
        }),
{
}

/// A flash begins in full and fades evenly to nothing over its time; it is not seen
/// before it goes off, nor once it has faded.
pub proof fn law_a_flash_fades_evenly(start: Instant, now: Instant, motion: Motion)
    requires
        start.nanos <= now.nanos,
    ensures
        ({
            let whole = motion.flash * 1_000_000;
            let gone = now.nanos - start.nanos;
            let seen = (Flash { started: Some(start) }).spec_opacity(now, fade_of(motion));
            &&& gone < whole ==> is_part(seen, whole - gone, whole)
            &&& gone >= whole ==> is_part(seen, 0, 1)
            &&& (Flash { started: Some(start) }).active(now, fade_of(motion)) <==> gone < whole
        }),
        is_part((Flash { started: None }).spec_opacity(now, fade_of(motion)), 0, 1),
{
}

/// A countdown shows the seconds that are left, a second begun as a whole one.
pub proof fn law_a_countdown_shows_the_seconds_left(start: Instant, total: Duration, now: Instant)
    requires
        start.nanos <= now.nanos,
    ensures
        ({
            let c = Countdown { running: Some((start, total)) };
            let left = total.nanos - (now.nanos - start.nanos);
            let shown = c.seconds_left(now);
            &&& c.active(now) <==> left > 0
            &&& left <= 0 ==> shown == 0
            &&& left > 0 ==> 1 <= shown <= u32::MAX && (shown - 1) * 1_000_000_000 < left
            &&& left > 0 && shown < u32::MAX ==> left <= shown * 1_000_000_000
        }),
        (Countdown { running: None }).seconds_left(now) == 0,
        !(Countdown { running: None }).active(now),
{
}

} // verus!
