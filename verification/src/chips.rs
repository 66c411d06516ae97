//! How the row of chunks is laid out: what is current comes before what is done, and what does
//! not fit is counted.
use crate::geometry::{least, less, rect, right_of, whole, Rect};
use crate::model::{timestamp, timestamp_text, Chunk, ChunkStatus};
use crate::queue::ascending;
use crate::search::{lemma_filter_kept, lemma_filter_len, lemma_filter_none, lemma_filter_step};
use crate::text;
use crate::text::{decimal_digits, two_digits};
use vstd::prelude::*;

verus! {

/// How many cells a text takes on a terminal, as ratatui counts them.
pub uninterp spec fn display_width(text: Seq<char>) -> usize;

/// `ratatui::text::Span::width`: how many cells a text takes. It rests on the text alone; the
/// rule by which characters are counted is left unsaid.
#[verifier::external_body]
fn cells_of(text: &str) -> (width: usize)
    ensures
        width == display_width(text@),
{
    ratatui::text::Span::raw(text).width()
}

/// A chunk in the row. A click on it selects its tab. Its opacity is the bits of an `f32`.
#[derive(Debug)]
#[verifier::ext_equal]
pub struct Chip<S = String> {
    pub area: Rect,
    pub text: S,
    pub status: ChunkStatus,
    pub opacity: u32,
    pub tab: S,
}

impl DeepView for Chip {
    type V = Chip<Seq<char>>;

    open spec fn deep_view(&self) -> Chip<Seq<char>> {
        Chip {
            area: self.area,
            text: self.text@,
            status: self.status,
            opacity: self.opacity,
            tab: self.tab@,
        }
    }
}

/// The row: its chips, and how many more there are.
#[derive(Debug)]
pub struct QueueRow {
    pub chips: Vec<Chip>,
    pub more: Option<(Rect, String)>,
}

/// The row as contracts see it.
#[verifier::ext_equal]
pub struct QueueRowModel {
    pub chips: Seq<Chip<Seq<char>>>,
    pub more: Option<(Rect, Seq<char>)>,
}

impl DeepView for QueueRow {
    type V = QueueRowModel;

    open spec fn deep_view(&self) -> QueueRowModel {
        QueueRowModel {
            chips: self.chips.deep_view(),
            more: match self.more {
                Some((area, words)) => Some((area, words@)),
                None => None,
            },
        }
    }
}

/// The word for how far a chunk has come.
pub open spec fn status_word(status: ChunkStatus) -> Seq<char> {
    match status {
        ChunkStatus::Recording => "● REC"@,
        ChunkStatus::Transcribing => "◌ TEXT"@,
        ChunkStatus::Queued => "WAIT"@,
        ChunkStatus::Ready => "DONE"@,
        ChunkStatus::Failed => "ERROR"@,
        ChunkStatus::Canceled => "CANCEL"@,
    }
}

/// The words on the chip of the chunk at a place.
pub open spec fn chip_text(chunks: Seq<Chunk<Seq<char>>>, index: int) -> Seq<char> {
    two_digits((index + 1) as nat) + " "@ + status_word(chunks[index].status) + " "@
        + timestamp_text(chunks[index].seconds)
}

/// How wide the chips of items are.
pub open spec fn chip_widths(chunks: Seq<Chunk<Seq<char>>>, items: Seq<(usize, u32)>) -> Seq<int> {
    Seq::new(items.len(), |p: int| display_width(chip_text(chunks, items[p].0 as int)) as int)
}

/// All places up to a number.
pub open spec fn all_places(count: nat) -> Seq<int> {
    Seq::new(count, |p: int| p)
}

/// Whether the item at a place has come just so far, as a filter.
pub open spec fn at_status(
    chunks: Seq<Chunk<Seq<char>>>,
    items: Seq<(usize, u32)>,
    status: ChunkStatus,
) -> spec_fn(int) -> bool {
    |p: int| chunks[items[p].0 as int].status == status
}

/// The places of the items that have come just so far.
pub open spec fn ranked(
    chunks: Seq<Chunk<Seq<char>>>,
    items: Seq<(usize, u32)>,
    status: ChunkStatus,
) -> Seq<int> {
    all_places(items.len()).filter(at_status(chunks, items, status))
}

/// The places of all items in the order of their weight: what runs, what waits, what failed, the
/// oldest first; then what is done and what was called off, the newest first.
pub open spec fn by_weight(chunks: Seq<Chunk<Seq<char>>>, items: Seq<(usize, u32)>) -> Seq<int> {
    ranked(chunks, items, ChunkStatus::Recording) + ranked(chunks, items, ChunkStatus::Transcribing)
        + ranked(chunks, items, ChunkStatus::Queued) + ranked(chunks, items, ChunkStatus::Failed)
        + ranked(chunks, items, ChunkStatus::Ready).reverse() + ranked(
        chunks,
        items,
        ChunkStatus::Canceled,
    ).reverse()
}

/// How wide chips are together, each with a space behind it.
pub open spec fn total_width(widths: Seq<int>) -> int
    decreases widths.len(),
{
    if widths.len() == 0 {
        0
    } else {
        total_width(widths.drop_last()) + widths.last() + 1
    }
}

/// The words for how many items are not shown.
pub open spec fn more_words(count: nat) -> Seq<char> {
    " +"@ + decimal_digits(count) + " more"@
}

/// The room for chips in a row: all of it, unless that is not enough for all.
pub open spec fn chip_room(widths: Seq<int>, width: int) -> int {
    if less(total_width(widths), 1) > width {
        less(width, more_words(widths.len()).len() as int)
    } else {
        width
    }
}

/// The room that is left after chips were tried, one after another.
pub open spec fn room_left(order: Seq<int>, widths: Seq<int>, room: int) -> int
    decreases order.len(),
{
    if order.len() == 0 {
        room
    } else {
        let left = room_left(order.drop_last(), widths, room);
        let width = widths[order.last()];
        if width > left {
            left
        } else {
            less(left, width + 1)
        }
    }
}

/// The chips that found room, each tried in its turn.
pub open spec fn fitting(order: Seq<int>, widths: Seq<int>, room: int) -> Set<int>
    decreases order.len(),
{
    if order.len() == 0 {
        Set::empty()
    } else {
        let before = fitting(order.drop_last(), widths, room);
        if widths[order.last()] > room_left(order.drop_last(), widths, room) {
            before
        } else {
            before.insert(order.last())
        }
    }
}

/// Whether a place is among some, as a filter.
pub open spec fn among(kept: Set<int>) -> spec_fn(int) -> bool {
    |p: int| kept.contains(p)
}

/// The chips that are shown, in the order of their chunks.
pub open spec fn staying(count: nat, kept: Set<int>) -> Seq<int> {
    all_places(count).filter(among(kept))
}

/// Where a chip begins that comes behind others.
pub open spec fn chip_start(earlier: Seq<int>, widths: Seq<int>, x: int) -> int {
    if earlier.len() == 0 {
        x
    } else {
        least(chips_end(earlier, widths, x) + 1, u16::MAX as int)
    }
}

/// Where the last of some chips ends. Nothing lies beyond the last position.
pub open spec fn chips_end(places: Seq<int>, widths: Seq<int>, x: int) -> int
    decreases places.len(),
{
    if places.len() == 0 {
        x
    } else {
        let earlier = places.drop_last();
        let start = if earlier.len() == 0 {
            x
        } else {
            least(chips_end(earlier, widths, x) + 1, u16::MAX as int)
        };
        least(start + widths[places.last()], u16::MAX as int)
    }
}

/// The chips at some places, side by side.
pub open spec fn laid_out(
    chunks: Seq<Chunk<Seq<char>>>,
    items: Seq<(usize, u32)>,
    places: Seq<int>,
    widths: Seq<int>,
    area: Rect,
) -> Seq<Chip<Seq<char>>>
    decreases places.len(),
{
    if places.len() == 0 {
        Seq::empty()
    } else {
        let p = places.last();
        let index = items[p].0 as int;
        laid_out(chunks, items, places.drop_last(), widths, area).push(
            Chip {
                area: rect(
                    chip_start(places.drop_last(), widths, area.x as int),
                    area.y as int,
                    widths[p],
                    1,
                ),
                text: chip_text(chunks, index),
                status: chunks[index].status,
                opacity: items[p].1,
                tab: chunks[index].tab_id,
            },
        )
    }
}

/// The chips that are shown, in the order of their chunks, where they are so wide.
pub open spec fn shown_places(
    chunks: Seq<Chunk<Seq<char>>>,
    items: Seq<(usize, u32)>,
    widths: Seq<int>,
    width: int,
) -> Seq<int> {
    staying(
        items.len(),
        fitting(by_weight(chunks, items), widths, chip_room(widths, width)),
    )
}

/// The count of what is not shown, where there is room for it.
pub open spec fn shown_more(hidden: int, area: Rect) -> Option<(Rect, Seq<char>)> {
    if hidden > 0 && area.width > more_words(hidden as nat).len() {
        let width = more_words(hidden as nat).len() as int;
        Some((rect(right_of(area) - width, area.y as int, width, 1), more_words(hidden as nat)))
    } else {
        None
    }
}

/// The row, where the chips are so wide.
pub open spec fn arranged(
    chunks: Seq<Chunk<Seq<char>>>,
    items: Seq<(usize, u32)>,
    widths: Seq<int>,
    area: Rect,
) -> QueueRowModel {
    if area.height == 0 || items.len() == 0 {
        QueueRowModel { chips: Seq::empty(), more: None }
    } else {
        let places = shown_places(chunks, items, widths, area.width as int);
        QueueRowModel {
            chips: laid_out(chunks, items, places, widths, area),
            more: shown_more(items.len() - places.len(), area),
        }
    }
}

/// Numbers as contracts see them.
pub open spec fn ints(v: Seq<usize>) -> Seq<int> {
    Seq::new(v.len(), |i: int| v[i] as int)
}

fn status_label(status: ChunkStatus) -> (word: &'static str)
    ensures
        word@ == status_word(status),
{
    match status {
        ChunkStatus::Recording => "● REC",
        ChunkStatus::Transcribing => "◌ TEXT",
        ChunkStatus::Queued => "WAIT",
        ChunkStatus::Ready => "DONE",
        ChunkStatus::Failed => "ERROR",
        ChunkStatus::Canceled => "CANCEL",
    }
}

/// The words on the chip of the chunk at a place.
pub fn chip_words(chunks: &Vec<Chunk>, index: usize) -> (words: String)
    requires
        index < chunks.len(),
    ensures
        words@ == chip_text(chunks.deep_view(), index as int),
{
    proof {
        assert(chunks.deep_view()[index as int] == chunks[index as int].deep_view());
    }
    let mut words = text::padded(index as u128 + 1);
    words.append(" ");
    words.append(status_label(chunks[index].status));
    words.append(" ");
    words.append(timestamp(chunks[index].seconds).as_str());
    words
}

fn places_at(chunks: &Vec<Chunk>, items: &Vec<(usize, u32)>, status: ChunkStatus) -> (places: Vec<
    usize,
>)
    requires
        ascending(items@, chunks.len() as int),
    ensures
        ints(places@) == ranked(chunks.deep_view(), items@, status),
        forall|i: int| 0 <= i < places.len() ==> #[trigger] places[i] < items.len(),
{
    let ghost keep = at_status(chunks.deep_view(), items@, status);
    let ghost all = all_places(items@.len());
    let mut places: Vec<usize> = Vec::new();
    let mut p: usize = 0;
    proof {
        lemma_filter_none(all.take(0), keep);
        assert(ints(places@) =~= all.take(0).filter(keep));
    }
    while p < items.len()
        invariant
            p <= items.len(),
            all == all_places(items@.len()),
            keep == at_status(chunks.deep_view(), items@, status),
            ascending(items@, chunks.len() as int),
            ints(places@) == all.take(p as int).filter(keep),
            forall|i: int| 0 <= i < places.len() ==> #[trigger] places[i] < items.len(),
        decreases items.len() - p,
    {
        let index: usize = items[p].0;
        let ghost before = places@;
        proof {
            lemma_filter_step(all, p as int, keep);
            assert(items@[p as int].0 < chunks.len());
            assert(chunks.deep_view()[index as int] == chunks[index as int].deep_view());
        }
        if chunks[index].status == status {
            places.push(p);
            proof {
                assert(ints(places@) =~= ints(before).push(p as int));
            }
        }
        p += 1;
    }
    proof {
        assert(all.take(p as int) =~= all);
    }
    places
}

fn add_forward(order: &mut Vec<usize>, places: &Vec<usize>)
    ensures
        ints(final(order)@) == ints(old(order)@) + ints(places@),
        final(order)@ == old(order)@ + places@,
{
    let ghost start = order@;
    let mut i: usize = 0;
    while i < places.len()
        invariant
            i <= places.len(),
            start == old(order)@,
            order@ == start + places@.take(i as int),
        decreases places.len() - i,
    {
        order.push(places[i]);
        i += 1;
        proof {
            assert(order@ =~= start + places@.take(i as int));
        }
    }
    proof {
        assert(places@.take(i as int) =~= places@);
        assert(ints(order@) =~= ints(start) + ints(places@));
    }
}

fn add_backward(order: &mut Vec<usize>, places: &Vec<usize>)
    ensures
        ints(final(order)@) == ints(old(order)@) + ints(places@).reverse(),
        final(order)@ == old(order)@ + places@.reverse(),
{
    let ghost start = order@;
    let mut i: usize = places.len();
    while i > 0
        invariant
            i <= places.len(),
            start == old(order)@,
            order@ == start + places@.subrange(i as int, places@.len() as int).reverse(),
        decreases i,
    {
        i -= 1;
        order.push(places[i]);
        proof {
            assert(order@ =~= start + places@.subrange(i as int, places@.len() as int).reverse());
        }
    }
    proof {
        assert(places@.subrange(0, places@.len() as int) =~= places@);
        assert(order@ =~= start + places@.reverse());
        assert(ints(order@) =~= ints(start) + ints(places@).reverse());
    }
}

fn order_of(chunks: &Vec<Chunk>, items: &Vec<(usize, u32)>) -> (order: Vec<usize>)
    requires
        ascending(items@, chunks.len() as int),
    ensures
        ints(order@) == by_weight(chunks.deep_view(), items@),
        forall|i: int| 0 <= i < order.len() ==> #[trigger] order[i] < items.len(),
{
    let mut order: Vec<usize> = Vec::new();
    let recording = places_at(chunks, items, ChunkStatus::Recording);
    let transcribing = places_at(chunks, items, ChunkStatus::Transcribing);
    let queued = places_at(chunks, items, ChunkStatus::Queued);
    let failed = places_at(chunks, items, ChunkStatus::Failed);
    let ready = places_at(chunks, items, ChunkStatus::Ready);
    let canceled = places_at(chunks, items, ChunkStatus::Canceled);
    add_forward(&mut order, &recording);
    add_forward(&mut order, &transcribing);
    add_forward(&mut order, &queued);
    add_forward(&mut order, &failed);
    add_backward(&mut order, &ready);
    add_backward(&mut order, &canceled);
    proof {
        assert(ints(order@) =~= by_weight(chunks.deep_view(), items@));
    }
    order
}

fn total_of(widths: &Vec<usize>) -> (total: usize)
    ensures
        total == least(total_width(ints(widths@)), usize::MAX as int),
{
    let ghost all = ints(widths@);
    let mut total: usize = 0;
    let mut i: usize = 0;
    while i < widths.len()
        invariant
            i <= widths.len(),
            all == ints(widths@),
            total == least(total_width(all.take(i as int)), usize::MAX as int),
            total_width(all.take(i as int)) >= 0,
        decreases widths.len() - i,
    {
        proof {
            assert(all.take(i + 1).drop_last() =~= all.take(i as int));
        }
        total = total.saturating_add(widths[i]).saturating_add(1);
        i += 1;
    }
    proof {
        assert(all.take(i as int) =~= all);
    }
    total
}

fn more_text(count: usize) -> (words: String)
    ensures
        words@ == more_words(count as nat),
{
    let mut words = " +".to_owned();
    words.append(text::decimal(count as u128).as_str());
    words.append(" more");
    words
}

fn room_of(widths: &Vec<usize>, width: u16) -> (room: usize)
    ensures
        room == chip_room(ints(widths@), width as int),
{
    let total: usize = total_of(widths);
    if total.saturating_sub(1) > width as usize {
        (width as usize).saturating_sub(more_text(widths.len()).as_str().unicode_len())
    } else {
        width as usize
    }
}

fn fit(order: &Vec<usize>, widths: &Vec<usize>, room: usize) -> (flags: Vec<bool>)
    requires
        forall|i: int| 0 <= i < order.len() ==> #[trigger] order[i] < widths.len(),
    ensures
        flags.len() == widths.len(),
        forall|p: int|
            0 <= p < flags.len() ==> #[trigger] flags[p] == fitting(
                ints(order@),
                ints(widths@),
                room as int,
            ).contains(p),
{
    let ghost all = ints(order@);
    let ghost sizes = ints(widths@);
    let mut flags: Vec<bool> = Vec::new();
    let mut p: usize = 0;
    while p < widths.len()
        invariant
            p <= widths.len(),
            flags.len() == p,
            forall|q: int| 0 <= q < p ==> !#[trigger] flags[q],
        decreases widths.len() - p,
    {
        flags.push(false);
        p += 1;
    }
    let mut left: usize = room;
    let mut i: usize = 0;
    while i < order.len()
        invariant
            i <= order.len(),
            all == ints(order@),
            sizes == ints(widths@),
            flags.len() == widths.len(),
            forall|i: int| 0 <= i < order.len() ==> #[trigger] order[i] < widths.len(),
            left == room_left(all.take(i as int), sizes, room as int),
            forall|p: int|
                0 <= p < flags.len() ==> #[trigger] flags[p] == fitting(
                    all.take(i as int),
                    sizes,
                    room as int,
                ).contains(p),
        decreases order.len() - i,
    {
        proof {
            assert(all.take(i + 1).drop_last() =~= all.take(i as int));
            assert(all.take(i + 1).last() == order[i as int]);
        }
        let place: usize = order[i];
        let width: usize = widths[place];
        if width <= left {
            flags.set(place, true);
            left = left.saturating_sub(width).saturating_sub(1);
        }
        i += 1;
    }
    proof {
        assert(all.take(i as int) =~= all);
    }
    flags
}

/// What finds room is not wider than the room there was.
proof fn lemma_fitting(order: Seq<int>, widths: Seq<int>, room: int)
    requires
        forall|i: int| 0 <= i < order.len() ==> widths[#[trigger] order[i]] >= 0,
        room >= 0,
    ensures
        0 <= room_left(order, widths, room) <= room,
        forall|p: int| #[trigger]
            fitting(order, widths, room).contains(p) ==> 0 <= widths[p] <= room && order.contains(
                p,
            ),
    decreases order.len(),
{
    if order.len() > 0 {
        let shorter = order.drop_last();
        assert forall|i: int| 0 <= i < shorter.len() implies widths[#[trigger] shorter[i]] >= 0 by {
            assert(shorter[i] == order[i]);
        }
        lemma_fitting(shorter, widths, room);
        assert(widths[order[order.len() - 1]] >= 0);
        assert forall|p: int| #[trigger]
            fitting(order, widths, room).contains(p) implies 0 <= widths[p] <= room
            && order.contains(p) by {
            if fitting(shorter, widths, room).contains(p) {
                let k = choose|k: int| 0 <= k < shorter.len() && shorter[k] == p;
                assert(order[k] == p);
            } else {
                assert(order[order.len() - 1] == p);
            }
        }
    }
}

/// Lays out the row, where the chips of the items are so wide. The items come in the order of their
/// chunks, as `queue_items` gives them.
pub fn arrange(chunks: &Vec<Chunk>, items: &Vec<(usize, u32)>, widths: &Vec<usize>, area: Rect) -> (row:
    QueueRow)
    requires
        ascending(items@, chunks.len() as int),
        widths.len() == items.len(),
        whole(area),
    ensures
        row.deep_view() == arranged(chunks.deep_view(), items@, ints(widths@), area),
{
    let ghost model = chunks.deep_view();
    let ghost sizes = ints(widths@);
    let mut chips: Vec<Chip> = Vec::new();
    if area.height == 0 || items.len() == 0 {
        let row = QueueRow { chips, more: None };
        proof {
            assert(row.chips.deep_view() =~= Seq::empty());
        }
        return row;
    }
    let order = order_of(chunks, items);
    let room: usize = room_of(widths, area.width);
    let flags = fit(&order, widths, room);
    let ghost kept = fitting(by_weight(model, items@), sizes, room as int);
    let ghost all = all_places(items@.len());
    let ghost keep = among(kept);
    proof {
        assert forall|i: int| 0 <= i < by_weight(model, items@).len() implies sizes[
            #[trigger] by_weight(model, items@)[i]] >= 0 by {
            assert(by_weight(model, items@)[i] == order[i]);
        }
        lemma_fitting(by_weight(model, items@), sizes, room as int);
        lemma_filter_none(all.take(0), keep);
        assert(all.take(0).filter(keep) =~= Seq::empty());
        assert(chips.deep_view() =~= Seq::empty());
    }
    let mut x: u16 = area.x;
    let mut p: usize = 0;
    while p < items.len()
        invariant
            p <= items.len(),
            model == chunks.deep_view(),
            sizes == ints(widths@),
            all == all_places(items@.len()),
            keep == among(kept),
            ascending(items@, chunks.len() as int),
            widths.len() == items.len(),
            flags.len() == widths.len(),
            forall|p: int| 0 <= p < flags.len() ==> #[trigger] flags[p] == kept.contains(p),
            room <= area.width,
            forall|p: int| #[trigger] kept.contains(p) ==> 0 <= sizes[p] <= room,
            chips.deep_view() == laid_out(
                model,
                items@,
                all.take(p as int).filter(keep),
                sizes,
                area,
            ),
            chips.len() == all.take(p as int).filter(keep).len(),
            x == chips_end(all.take(p as int).filter(keep), sizes, area.x as int),
        decreases items.len() - p,
    {
        let ghost before = all.take(p as int).filter(keep);
        let ghost laid = chips.deep_view();
        proof {
            lemma_filter_step(all, p as int, keep);
        }
        if flags[p] {
            let index: usize = items[p].0;
            let width: u16 = widths[p] as u16;
            proof {
                assert(kept.contains(p as int));
                assert(sizes[p as int] == widths[p as int]);
                assert(items@[p as int].0 < chunks.len());
                assert(model[index as int] == chunks[index as int].deep_view());
                assert(before.push(p as int).drop_last() =~= before);
                assert(before.push(p as int).last() == p);
            }
            if chips.len() > 0 {
                x = x.saturating_add(1);
            }
            let chip = Chip {
                area: Rect::new(x, area.y, width, 1),
                text: chip_words(chunks, index),
                status: chunks[index].status,
                opacity: items[p].1,
                tab: chunks[index].tab_id.clone(),
            };
            let ghost shown = chip.deep_view();
            chips.push(chip);
            x = x.saturating_add(width);
            proof {
                assert(chips.deep_view() =~= laid.push(shown));
            }
        }
        p += 1;
    }
    proof {
        assert(all.take(p as int) =~= all);
        lemma_filter_len(all, keep);
    }
    let hidden: usize = items.len() - chips.len();
    let mut more: Option<(Rect, String)> = None;
    if hidden > 0 {
        let words = more_text(hidden);
        let length: usize = words.as_str().unicode_len();
        if area.width as usize > length {
            let width: u16 = length as u16;
            more = Some((Rect::new(area.right() - width, area.y, width, 1), words));
        }
    }
    QueueRow { chips, more }
}

/// Lays out the row of the items that are shown, which come in the order of their chunks, as
/// `queue_items` gives them.
pub fn queue(chunks: &Vec<Chunk>, items: &Vec<(usize, u32)>, area: Rect) -> (row: QueueRow)
    requires
        ascending(items@, chunks.len() as int),
        whole(area),
    ensures
        row.deep_view() == arranged(
            chunks.deep_view(),
            items@,
            chip_widths(chunks.deep_view(), items@),
            area,
        ),
{
    let mut widths: Vec<usize> = Vec::new();
    let mut p: usize = 0;
    while p < items.len()
        invariant
            p <= items.len(),
            widths.len() == p,
            ascending(items@, chunks.len() as int),
            forall|q: int|
                0 <= q < p ==> #[trigger] widths[q] == display_width(
                    chip_text(chunks.deep_view(), items@[q].0 as int),
                ),
        decreases items.len() - p,
    {
        proof {
            assert(items@[p as int].0 < chunks.len());
        }
        widths.push(cells_of(chip_words(chunks, items[p].0).as_str()));
        p += 1;
    }
    proof {
        assert(ints(widths@) =~= chip_widths(chunks.deep_view(), items@));
    }
    arrange(chunks, items, &widths, area)
}

/// How much of a row chips take that are among some, each with a space behind it.
spec fn taken(kept: Set<int>, widths: Seq<int>, n: int) -> int
    decreases n,
{
    if n <= 0 {
        0
    } else {
        taken(kept, widths, n - 1) + if kept.contains(n - 1) {
            widths[n - 1] + 1
        } else {
            0
        }
    }
}

proof fn lemma_taken_one_more(kept: Set<int>, widths: Seq<int>, n: int, p: int)
    requires
        0 <= n <= widths.len(),
        0 <= p < widths.len(),
        widths[p] >= 0,
    ensures
        taken(kept.insert(p), widths, n) <= taken(kept, widths, n) + (if p < n {
            widths[p] + 1
        } else {
            0
        }),
    decreases n,
{
    if n > 0 {
        lemma_taken_one_more(kept, widths, n - 1, p);
    }
}

proof fn lemma_taken_fits(order: Seq<int>, widths: Seq<int>, room: int)
    requires
        forall|p: int| 0 <= p < widths.len() ==> #[trigger] widths[p] >= 1,
        forall|i: int| 0 <= i < order.len() ==> 0 <= #[trigger] order[i] < widths.len(),
        room >= 0,
    ensures
        room_left(order, widths, room) >= 0,
        taken(fitting(order, widths, room), widths, widths.len() as int) + room_left(
            order,
            widths,
            room,
        ) <= room + 1,
        taken(fitting(order, widths, room), widths, widths.len() as int) + room_left(
            order,
            widths,
            room,
        ) == room + 1 ==> room_left(order, widths, room) == 0,
    decreases order.len(),
{
    let n = widths.len() as int;
    if order.len() > 0 {
        let shorter = order.drop_last();
        assert forall|i: int| 0 <= i < shorter.len() implies 0 <= #[trigger] shorter[i]
            < widths.len() by {
            assert(shorter[i] == order[i]);
        }
        lemma_taken_fits(shorter, widths, room);
        let p = order[order.len() - 1];
        assert(widths[p] >= 1);
        lemma_taken_one_more(fitting(shorter, widths, room), widths, n, p);
    } else {
        lemma_taken_none(widths, n);
    }
}

proof fn lemma_taken_none(widths: Seq<int>, n: int)
    ensures
        taken(Set::empty(), widths, n) == 0,
    decreases n,
{
    if n > 0 {
        lemma_taken_none(widths, n - 1);
    }
}

proof fn lemma_taken_grows(kept: Set<int>, widths: Seq<int>, m: int, n: int)
    requires
        0 <= m <= n <= widths.len(),
        forall|p: int| 0 <= p < widths.len() ==> #[trigger] widths[p] >= 1,
    ensures
        0 <= taken(kept, widths, m) <= taken(kept, widths, n),
    decreases n,
{
    if m < n {
        lemma_taken_grows(kept, widths, m, n - 1);
    } else if n > 0 {
        lemma_taken_grows(kept, widths, n - 1, n - 1);
    }
}

/// Where the first of the chips that stay end.
proof fn lemma_chips_end(kept: Set<int>, widths: Seq<int>, m: int, x: int, room: int)
    requires
        0 <= m <= widths.len(),
        forall|p: int| 0 <= p < widths.len() ==> #[trigger] widths[p] >= 1,
        taken(kept, widths, widths.len() as int) <= room + 1,
        0 <= x,
        x + room <= u16::MAX,
    ensures
        ({
            let places = all_places(widths.len()).take(m).filter(among(kept));
            &&& places.len() == 0 ==> taken(kept, widths, m) == 0
            &&& places.len() > 0 ==> taken(kept, widths, m) > 0
            &&& chips_end(places, widths, x) == if places.len() == 0 {
                x
            } else {
                x + taken(kept, widths, m) - 1
            }
        }),
    decreases m,
{
    let all = all_places(widths.len());
    let keep = among(kept);
    if m > 0 {
        lemma_chips_end(kept, widths, m - 1, x, room);
        lemma_filter_step(all, m - 1, keep);
        lemma_taken_grows(kept, widths, m, widths.len() as int);
        lemma_taken_grows(kept, widths, m - 1, m);
        let earlier = all.take(m - 1).filter(keep);
        if keep(all[m - 1]) {
            assert(earlier.push(m - 1).drop_last() =~= earlier);
            assert(widths[m - 1] >= 1);
        }
    } else {
        lemma_filter_none(all.take(0), keep);
    }
}

/// Whether chips stand side by side in a row, with a space between neighbours.
pub open spec fn side_by_side(chips: Seq<Chip<Seq<char>>>, area: Rect) -> bool {
    &&& forall|i: int|
        0 <= i < chips.len() ==> area.x <= (#[trigger] chips[i]).area.x && chips[i].area.x
            + chips[i].area.width <= area.x + area.width && chips[i].area.y == area.y
            && chips[i].area.height == 1
    &&& forall|i: int, j: int|
        0 <= i < j < chips.len() ==> (#[trigger] chips[i]).area.x + chips[i].area.width < (
        #[trigger] chips[j]).area.x
}

/// The chips that stay stand side by side as far as they were laid out.
proof fn lemma_side_by_side(
    chunks: Seq<Chunk<Seq<char>>>,
    items: Seq<(usize, u32)>,
    kept: Set<int>,
    widths: Seq<int>,
    area: Rect,
    m: int,
)
    requires
        0 <= m <= widths.len(),
        widths.len() == items.len(),
        forall|p: int| 0 <= p < widths.len() ==> #[trigger] widths[p] >= 1,
        taken(kept, widths, widths.len() as int) <= area.width + 1,
        whole(area),
        area.y < u16::MAX,
    ensures
        ({
            let places = all_places(widths.len()).take(m).filter(among(kept));
            let chips = laid_out(chunks, items, places, widths, area);
            &&& chips.len() == places.len()
            &&& side_by_side(chips, area)
            &&& forall|i: int|
                0 <= i < chips.len() ==> (#[trigger] chips[i]).area.x + chips[i].area.width
                    <= chips_end(places, widths, area.x as int)
        }),
    decreases m,
{
    let all = all_places(widths.len());
    let keep = among(kept);
    let x = area.x as int;
    let room = area.width as int;
    if m > 0 {
        let earlier = all.take(m - 1).filter(keep);
        lemma_side_by_side(chunks, items, kept, widths, area, m - 1);
        lemma_chips_end(kept, widths, m - 1, x, room);
        lemma_chips_end(kept, widths, m, x, room);
        lemma_filter_step(all, m - 1, keep);
        lemma_taken_grows(kept, widths, m, widths.len() as int);
        lemma_taken_grows(kept, widths, m - 1, m);
        if keep(all[m - 1]) {
            assert(earlier.push(m - 1).drop_last() =~= earlier);
            assert(widths[m - 1] >= 1);
        }
    } else {
        lemma_filter_none(all.take(0), keep);
    }
}

/// All chips that are shown fit the row side by side, provided that every chip takes a cell.
pub proof fn law_chips_fit(
    chunks: Seq<Chunk<Seq<char>>>,
    items: Seq<(usize, u32)>,
    widths: Seq<int>,
    area: Rect,
)
    requires
        widths.len() == items.len(),
        forall|p: int| 0 <= p < widths.len() ==> #[trigger] widths[p] >= 1,
        whole(area),
    ensures
        side_by_side(arranged(chunks, items, widths, area).chips, area),
{
    if area.height > 0 && items.len() > 0 {
        let order = by_weight(chunks, items);
        let room = chip_room(widths, area.width as int);
        let kept = fitting(order, widths, room);
        lemma_weight_places(chunks, items);
        lemma_taken_fits(order, widths, room);
        lemma_side_by_side(chunks, items, kept, widths, area, widths.len() as int);
        let all = all_places(widths.len());
        assert(all.take(widths.len() as int) =~= all);
    }
}

/// What is ordered by weight are places of items.
proof fn lemma_weight_places(chunks: Seq<Chunk<Seq<char>>>, items: Seq<(usize, u32)>)
    ensures
        forall|i: int|
            0 <= i < by_weight(chunks, items).len() ==> 0 <= #[trigger] by_weight(chunks, items)[i]
                < items.len(),
{
    lemma_ranked_places(chunks, items, ChunkStatus::Recording);
    lemma_ranked_places(chunks, items, ChunkStatus::Transcribing);
    lemma_ranked_places(chunks, items, ChunkStatus::Queued);
    lemma_ranked_places(chunks, items, ChunkStatus::Failed);
    lemma_ranked_places(chunks, items, ChunkStatus::Ready);
    lemma_ranked_places(chunks, items, ChunkStatus::Canceled);
}

proof fn lemma_ranked_places(
    chunks: Seq<Chunk<Seq<char>>>,
    items: Seq<(usize, u32)>,
    status: ChunkStatus,
)
    ensures
        forall|i: int|
            0 <= i < ranked(chunks, items, status).len() ==> 0 <= #[trigger] ranked(
                chunks,
                items,
                status,
            )[i] < items.len(),
{
    let all = all_places(items.len());
    let keep = at_status(chunks, items, status);
    lemma_filter_kept(all, keep);
    assert forall|i: int| 0 <= i < all.filter(keep).len() implies 0 <= #[trigger] all.filter(
        keep,
    )[i] < items.len() by {
        assert(all.contains(all.filter(keep)[i]));
    }
}

} // verus!
