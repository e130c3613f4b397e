//! Matching what the user types against the names on offer.

use crate::text::{concat2, concat3, from_chars, lines, rows, split_lines, texts, to_chars};
use vstd::prelude::*;

verus! {

/// What `str::to_lowercase` makes of `s`.
pub uninterp spec fn lowercased(s: Seq<char>) -> Seq<char>;

/// `str::to_lowercase`: the lowercase equivalent of the string.
#[verifier::external_body]
fn lowercase(s: &str) -> (r: String)
    ensures
        r@ == lowercased(s@),
{
    s.to_lowercase()
}

/// Whether the characters of `q` occur in `t` in the same order, not
/// necessarily next to each other.
pub open spec fn subsequence(q: Seq<char>, t: Seq<char>) -> bool
    decreases t.len(),
{
    if q.len() == 0 {
        true
    } else if t.len() == 0 {
        false
    } else if q[0] == t[0] {
        subsequence(q.drop_first(), t.drop_first())
    } else {
        subsequence(q, t.drop_first())
    }
}

/// Whether the characters of `query` occur in `text` in the same order,
/// letter case aside.
pub open spec fn fuzzy(query: Seq<char>, text: Seq<char>) -> bool {
    subsequence(lowercased(query), lowercased(text))
}

/// Whether the characters of `q` occur in `t` in the same order.
pub fn is_subsequence(q: &Vec<char>, t: &Vec<char>) -> (r: bool)
    ensures
        r == subsequence(q@, t@),
{
    let mut qi: usize = 0;
    let mut ti: usize = 0;
    assert(q@.skip(0) =~= q@);
    assert(t@.skip(0) =~= t@);
    while ti < t.len()
        invariant
            qi <= q.len(),
            ti <= t.len(),
            subsequence(q@, t@) == subsequence(q@.skip(qi as int), t@.skip(ti as int)),
        decreases t.len() - ti,
    {
        let ghost qs = q@.skip(qi as int);
        let ghost ts = t@.skip(ti as int);
        assert(ts.drop_first() =~= t@.skip(ti + 1));
        if qi < q.len() && q[qi] == t[ti] {
            assert(qs.drop_first() =~= q@.skip(qi + 1));
            qi += 1;
        } else if qi < q.len() {
            assert(qs[0] != ts[0]);
        }
        ti += 1;
    }
    qi == q.len()
}

/// Whether `text` matches `query`: the characters of `query` occur in
/// `text` in the same order, letter case aside.
pub fn fuzzy_match(query: &str, text: &str) -> (r: bool)
    ensures
        r == fuzzy(query@, text@),
{
    let q = to_chars(lowercase(query).as_str());
    let t = to_chars(lowercase(text).as_str());
    is_subsequence(&q, &t)
}

/// The empty query matches everything.
pub proof fn lemma_empty_matches(t: Seq<char>)
    ensures
        subsequence(Seq::empty(), t),
{
}

/// A text matches itself.
pub proof fn lemma_matches_itself(t: Seq<char>)
    ensures
        subsequence(t, t),
    decreases t.len(),
{
    if t.len() > 0 {
        lemma_matches_itself(t.drop_first());
    }
}

/// An entry of a list to pick from.
#[derive(Clone, Debug)]
pub struct PickItem {
    pub label: String,
    pub description: String,
    pub preview: Option<String>,
}

/// An entry of a list to tick entries of.
#[derive(Debug)]
pub struct MultiSelectItem {
    pub label: String,
    pub hint: String,
    pub selected: bool,
}

/// Whether the item at `i` is on offer for `query`: every item where the
/// query is empty, else the items whose label or description matches it.
pub open spec fn offered(items: Seq<PickItem>, query: Seq<char>, i: int) -> bool {
    query.len() == 0 || fuzzy(query, items[i].label@) || fuzzy(query, items[i].description@)
}

/// The positions of the items on offer for `query`, in order.
pub fn filtered(items: &Vec<PickItem>, query: &str) -> (r: Vec<usize>)
    ensures
        forall|k: int| 0 <= k < r@.len() ==> 0 <= #[trigger] r@[k] < items@.len() && offered(
            items@,
            query@,
            r@[k] as int,
        ),
        forall|k: int, l: int| 0 <= k < l < r@.len() ==> r@[k] < r@[l],
        forall|i: int|
            0 <= i < items@.len() && offered(items@, query@, i) ==> exists|k: int|
                0 <= k < r@.len() && #[trigger] r@[k] == i,
{
    let mut r: Vec<usize> = Vec::new();
    let mut i: usize = 0;
    let all = query.is_empty();
    while i < items.len()
        invariant
            i <= items.len(),
            all == (query@.len() == 0),
            forall|k: int| 0 <= k < r@.len() ==> 0 <= #[trigger] r@[k] < i && offered(
                items@,
                query@,
                r@[k] as int,
            ),
            forall|k: int, l: int| 0 <= k < l < r@.len() ==> r@[k] < r@[l],
            forall|j: int|
                0 <= j < i && offered(items@, query@, j) ==> exists|k: int|
                    0 <= k < r@.len() && #[trigger] r@[k] == j,
        decreases items.len() - i,
    {
        if all || fuzzy_match(query, items[i].label.as_str()) || fuzzy_match(
            query,
            items[i].description.as_str(),
        ) {
            let ghost before = r@;
            r.push(i);
            assert forall|j: int| 0 <= j <= i && offered(items@, query@, j) implies exists|k: int|
                0 <= k < r@.len() && #[trigger] r@[k] == j by {
                if j < i {
                    let k = choose|k: int| 0 <= k < before.len() && #[trigger] before[k] == j;
                    assert(r@[k] == j);
                } else {
                    assert(r@[before.len() as int] == j);
                }
            }
        }
        i += 1;
    }
    r
}

/// A key that the user pressed.
#[derive(Clone, Copy, Debug, PartialEq, Eq)]
pub enum Key {
    /// Escape, or control and C.
    Cancel,
    Enter,
    Up,
    Down,
    Backspace,
    /// A character.
    Char(char),
    /// Any other key.
    Other,
}

/// Where picking from a list stands: what was typed, and which of the
/// items on offer is marked.
#[derive(Debug)]
pub struct Picker {
    pub query: String,
    pub cursor: usize,
}

/// What a key has led to.
#[derive(Clone, Copy, Debug, PartialEq, Eq)]
pub enum Step {
    /// The choice goes on.
    Going,
    /// The user gave up.
    Cancelled,
    /// The user chose the item at this position of the whole list.
    Chosen(usize),
}

/// The mark after it was held within `count` items on offer.
pub open spec fn held(cursor: int, count: int) -> int {
    if cursor >= count {
        if count > 0 {
            count - 1
        } else {
            0
        }
    } else {
        cursor
    }
}

/// The mark one item up.
pub open spec fn up(cursor: int) -> int {
    if cursor > 0 {
        cursor - 1
    } else {
        0
    }
}

/// The mark one item down, among `count` items.
pub open spec fn down(cursor: int, count: int) -> int {
    if count == 0 {
        cursor
    } else if cursor + 1 < count - 1 {
        cursor + 1
    } else {
        count - 1
    }
}

impl Picker {
    /// Nothing typed, the first item marked.
    pub fn new() -> (r: Picker)
        ensures
            r.query@ == Seq::<char>::empty(),
            r.cursor == 0,
    {
        Picker { query: String::new(), cursor: 0 }
    }

    /// Holds the mark within the `count` items on offer.
    pub fn hold(&mut self, count: usize)
        ensures
            final(self).query == old(self).query,
            final(self).cursor == held(old(self).cursor as int, count as int),
    {
        if self.cursor >= count {
            self.cursor = if count > 0 {
                count - 1
            } else {
                0
            };
        }
    }

    /// Takes a key. `matches` holds the positions of the items on offer.
    /// Enter chooses the marked item where there is one; the arrows move
    /// the mark; a character is added to what was typed, backspace takes
    /// the last one away, and both put the mark on the first item.
    pub fn press(&mut self, key: Key, matches: &Vec<usize>) -> (r: Step)
        ensures
            match key {
                Key::Cancel => r == Step::Cancelled && *final(self) == *old(self),
                Key::Enter => *final(self) == *old(self) && r == (if old(self).cursor
                    < matches@.len() {
                    Step::Chosen(matches@[old(self).cursor as int])
                } else {
                    Step::Going
                }),
                Key::Up => r == Step::Going && final(self).query == old(self).query
                    && final(self).cursor == up(old(self).cursor as int),
                Key::Down => r == Step::Going && final(self).query == old(self).query
                    && final(self).cursor == down(old(self).cursor as int, matches@.len() as int),
                Key::Backspace => r == Step::Going && final(self).cursor == 0 && final(self).query@
                    == (if old(self).query@.len() > 0 {
                    old(self).query@.drop_last()
                } else {
                    old(self).query@
                }),
                Key::Char(c) => r == Step::Going && final(self).cursor == 0 && final(self).query@
                    == old(self).query@.push(c),
                Key::Other => r == Step::Going && *final(self) == *old(self),
            },
    {
        match key {
            Key::Cancel => Step::Cancelled,
            Key::Enter => {
                if self.cursor < matches.len() {
                    Step::Chosen(matches[self.cursor])
                } else {
                    Step::Going
                }
            },
            Key::Up => {
                if self.cursor > 0 {
                    self.cursor = self.cursor - 1;
                }
                Step::Going
            },
            Key::Down => {
                if matches.len() > 0 {
                    if self.cursor < matches.len() - 1 && self.cursor + 1 < matches.len() - 1 {
                        self.cursor = self.cursor + 1;
                    } else {
                        self.cursor = matches.len() - 1;
                    }
                }
                Step::Going
            },
            Key::Backspace => {
                let v = to_chars(self.query.as_str());
                if v.len() > 0 {
                    self.query = crate::text::from_range(&v, 0, v.len() - 1);
                    assert(v@.subrange(0, v@.len() - 1) =~= v@.drop_last());
                }
                self.cursor = 0;
                Step::Going
            },
            Key::Char(c) => {
                let mut v = to_chars(self.query.as_str());
                v.push(c);
                self.query = crate::text::from_chars(&v);
                self.cursor = 0;
                Step::Going
            },
            Key::Other => Step::Going,
        }
    }
}

/// Which of the items are ticked.
pub open spec fn ticks(items: Seq<MultiSelectItem>) -> Seq<bool> {
    Seq::new(items.len(), |i: int| items[i].selected)
}

/// The positions of the ticked items among the first `n`, in order.
pub open spec fn ticked(marks: Seq<bool>, n: int) -> Seq<usize>
    decreases n,
{
    if n <= 0 {
        Seq::empty()
    } else if marks[n - 1] {
        ticked(marks, n - 1).push((n - 1) as usize)
    } else {
        ticked(marks, n - 1)
    }
}

/// What a key has led to in a list to tick entries of.
#[derive(Debug)]
pub enum Ticking {
    /// The ticking goes on.
    Going,
    /// The user gave up.
    Cancelled,
    /// The user is done; these are the positions of the ticked items.
    Submitted(Vec<usize>),
}

/// The positions of the ticked items, in order.
pub fn selected_positions(items: &Vec<MultiSelectItem>) -> (r: Vec<usize>)
    ensures
        r@ == ticked(ticks(items@), items@.len() as int),
{
    let mut r: Vec<usize> = Vec::new();
    let mut i: usize = 0;
    while i < items.len()
        invariant
            i <= items.len(),
            r@ == ticked(ticks(items@), i as int),
        decreases items.len() - i,
    {
        if items[i].selected {
            r.push(i);
        }
        i += 1;
    }
    r
}

/// Sets the tick of the item at `at`, if there is one; everything else
/// stays as it is.
pub fn set_tick(items: &mut Vec<MultiSelectItem>, at: usize, tick: bool)
    ensures
        final(items)@.len() == old(items)@.len(),
        ticks(final(items)@) == (if at < old(items)@.len() {
            ticks(old(items)@).update(at as int, tick)
        } else {
            ticks(old(items)@)
        }),
        forall|i: int|
            0 <= i < old(items)@.len() ==> (#[trigger] final(items)@[i]).label == old(
                items,
            )@[i].label && final(items)@[i].hint == old(items)@[i].hint,
{
    if at < items.len() {
        items.push(MultiSelectItem { label: String::new(), hint: String::new(), selected: tick });
        let previous = items.swap_remove(at);
        items.push(MultiSelectItem { label: previous.label, hint: previous.hint, selected: tick });
        let placeholder = items.swap_remove(at);
        assert(ticks(items@) =~= ticks(old(items)@).update(at as int, tick));
    }
}

/// Takes a key in a list to tick entries of; `cursor` is the marked
/// item. The space bar flips the tick of the marked item. Enter ticks
/// the marked item and submits; with `required` nothing is submitted
/// while nothing is ticked. In an empty list both do nothing but that
/// Enter submits where nothing is required.
pub fn press_tick(items: &mut Vec<MultiSelectItem>, cursor: &mut usize, key: Key, required: bool) -> (r:
    Ticking)
    ensures
        final(items)@.len() == old(items)@.len(),
        forall|i: int|
            0 <= i < old(items)@.len() ==> (#[trigger] final(items)@[i]).label == old(
                items,
            )@[i].label && final(items)@[i].hint == old(items)@[i].hint,
        match key {
            Key::Cancel => r is Cancelled && *final(cursor) == *old(cursor) && ticks(final(items)@)
                == ticks(old(items)@),
            Key::Char(' ') => r is Going && *final(cursor) == *old(cursor) && ticks(final(items)@)
                == (if *old(cursor) < old(items)@.len() {
                ticks(old(items)@).update(
                    *old(cursor) as int,
                    !old(items)@[*old(cursor) as int].selected,
                )
            } else {
                ticks(old(items)@)
            }),
            Key::Enter => *final(cursor) == *old(cursor) && ticks(final(items)@) == (if *old(
                cursor,
            ) < old(items)@.len() {
                ticks(old(items)@).update(*old(cursor) as int, true)
            } else {
                ticks(old(items)@)
            }) && (if required && ticked(ticks(final(items)@), final(items)@.len() as int).len()
                == 0 {
                r is Going
            } else {
                r matches Ticking::Submitted(chosen) && chosen@ == ticked(
                    ticks(final(items)@),
                    final(items)@.len() as int,
                )
            }),
            Key::Up => r is Going && *final(cursor) == up(*old(cursor) as int) && ticks(
                final(items)@,
            ) == ticks(old(items)@),
            Key::Down => r is Going && *final(cursor) == down(
                *old(cursor) as int,
                old(items)@.len() as int,
            ) && ticks(final(items)@) == ticks(old(items)@),
            _ => r is Going && *final(cursor) == *old(cursor) && ticks(final(items)@) == ticks(
                old(items)@,
            ),
        },
{
    match key {
        Key::Cancel => Ticking::Cancelled,
        Key::Char(c) => {
            if c == ' ' && *cursor < items.len() {
                let flipped = !items[*cursor].selected;
                set_tick(items, *cursor, flipped);
            }
            Ticking::Going
        },
        Key::Enter => {
            set_tick(items, *cursor, true);
            let chosen = selected_positions(items);
            if required && chosen.len() == 0 {
                Ticking::Going
            } else {
                Ticking::Submitted(chosen)
            }
        },
        Key::Up => {
            if *cursor > 0 {
                *cursor = *cursor - 1;
            }
            Ticking::Going
        },
        Key::Down => {
            if items.len() > 0 {
                if *cursor < items.len() - 1 && *cursor + 1 < items.len() - 1 {
                    *cursor = *cursor + 1;
                } else {
                    *cursor = items.len() - 1;
                }
            }
            Ticking::Going
        },
        _ => Ticking::Going,
    }
}

/// The line of an entry of a list: a bar, the marker `mark`, the label,
/// in bold where the entry is marked, and the note `note` in grey where
/// there is one.
pub open spec fn entry_line(mark: Seq<char>, label: Seq<char>, note: Seq<char>, marked: bool) -> Seq<
    char,
> {
    "\x1b[36m│\x1b[0m  "@ + mark + " "@ + (if marked {
        "\x1b[1m"@ + label + "\x1b[0m"@
    } else {
        label
    }) + (if note.len() > 0 {
        " \x1b[2m"@ + note + "\x1b[0m"@
    } else {
        Seq::empty()
    })
}

fn entry_text(mark: &str, label: &str, note: &str, marked: bool) -> (r: String)
    ensures
        r@ == entry_line(mark@, label@, note@, marked),
{
    let mut r = concat3("\x1b[36m│\x1b[0m  ", mark, " ");
    if marked {
        r.append("\x1b[1m");
        r.append(label);
        r.append("\x1b[0m");
        assert(r@ =~= "\x1b[36m│\x1b[0m  "@ + mark@ + " "@ + ("\x1b[1m"@ + label@ + "\x1b[0m"@));
    } else {
        r.append(label);
    }
    if !note.is_empty() {
        let ghost before = r@;
        r.append(" \x1b[2m");
        r.append(note);
        r.append("\x1b[0m");
        assert(r@ =~= before + (" \x1b[2m"@ + note@ + "\x1b[0m"@));
    } else {
        assert(r@ + Seq::<char>::empty() =~= r@);
    }
    r
}

/// The first `n` entries of a list to tick: a full box before a ticked
/// entry, an empty one before the others.
pub open spec fn tick_lines(items: Seq<MultiSelectItem>, cursor: int, n: int) -> Seq<Seq<char>>
    decreases n,
{
    if n <= 0 {
        Seq::empty()
    } else {
        tick_lines(items, cursor, n - 1).push(
            entry_line(
                if items[n - 1].selected {
                    "\x1b[32m◼\x1b[0m"@
                } else {
                    "◻"@
                },
                items[n - 1].label@,
                items[n - 1].hint@,
                cursor == n - 1,
            ),
        )
    }
}

/// The lines of a list to tick entries of: the question, the entries,
/// and what the keys do.
pub open spec fn tick_screen(prompt: Seq<char>, items: Seq<MultiSelectItem>, cursor: int) -> Seq<
    Seq<char>,
> {
    seq!["\x1b[36m◆\x1b[0m  "@ + prompt] + tick_lines(items, cursor, items.len() as int)
        + seq![
        "\x1b[36m│\x1b[0m"@,
        "\x1b[36m└\x1b[0m  \x1b[2mspace=toggle / enter=confirm / esc=cancel\x1b[0m"@,
    ]
}

/// Draws a list to tick entries of, as lines.
pub fn render_ticks(prompt: &str, items: &Vec<MultiSelectItem>, cursor: usize) -> (r: Vec<String>)
    ensures
        texts(r@) == tick_screen(prompt@, items@, cursor as int),
{
    let mut r: Vec<String> = Vec::new();
    let head = concat2("\x1b[36m◆\x1b[0m  ", prompt);
    r.push(head);
    let ghost first = seq![head@];
    assert(texts(r@) =~= first + tick_lines(items@, cursor as int, 0));
    let mut i: usize = 0;
    while i < items.len()
        invariant
            i <= items.len(),
            first == seq!["\x1b[36m◆\x1b[0m  "@ + prompt@],
            texts(r@) == first + tick_lines(items@, cursor as int, i as int),
        decreases items.len() - i,
    {
        let mark = if items[i].selected {
            "\x1b[32m◼\x1b[0m"
        } else {
            "◻"
        };
        let line = entry_text(mark, items[i].label.as_str(), items[i].hint.as_str(), i == cursor);
        let ghost before = texts(r@);
        r.push(line);
        proof {
            assert(texts(r@) =~= before.push(line@));
            assert(first + tick_lines(items@, cursor as int, i as int).push(line@) =~= before.push(
                line@,
            ));
        }
        i += 1;
    }
    let ghost body = texts(r@);
    r.push("\x1b[36m│\x1b[0m".to_owned());
    r.push("\x1b[36m└\x1b[0m  \x1b[2mspace=toggle / enter=confirm / esc=cancel\x1b[0m".to_owned());
    assert(texts(r@) =~= body + seq![
        "\x1b[36m│\x1b[0m"@,
        "\x1b[36m└\x1b[0m  \x1b[2mspace=toggle / enter=confirm / esc=cancel\x1b[0m"@,
    ]);
    r
}

/// The first `n` of the entries on offer, a full dot before the marked
/// one, an empty one before the others. Positions that are none of the
/// list are passed over.
pub open spec fn pick_lines(items: Seq<PickItem>, matches: Seq<usize>, cursor: int, n: int) -> Seq<
    Seq<char>,
>
    decreases n,
{
    if n <= 0 {
        Seq::empty()
    } else if matches[n - 1] < items.len() {
        pick_lines(items, matches, cursor, n - 1).push(
            entry_line(
                if cursor == n - 1 {
                    "\x1b[36m●\x1b[0m"@
                } else {
                    "○"@
                },
                items[matches[n - 1] as int].label@,
                items[matches[n - 1] as int].description@,
                cursor == n - 1,
            ),
        )
    } else {
        pick_lines(items, matches, cursor, n - 1)
    }
}

/// The preview of the marked entry, where it has one: an empty line and
/// the lines of the preview.
pub open spec fn preview_lines(items: Seq<PickItem>, matches: Seq<usize>, cursor: int) -> Seq<
    Seq<char>,
> {
    if 0 <= cursor < matches.len() && matches[cursor] < items.len()
        && items[matches[cursor] as int].preview is Some {
        let shown = lines(items[matches[cursor] as int].preview->0@);
        seq!["\x1b[36m│\x1b[0m"@] + Seq::new(
            shown.len(),
            |i: int| "\x1b[36m│\x1b[0m  \x1b[33m"@ + shown[i] + "\x1b[0m"@,
        )
    } else {
        Seq::empty()
    }
}

/// The lines of a list to pick from: what was typed, the entries on
/// offer or the word that there are none, the preview of the marked
/// entry, and the hint `footer`.
pub open spec fn pick_screen(
    items: Seq<PickItem>,
    matches: Seq<usize>,
    cursor: int,
    query: Seq<char>,
    footer: Seq<char>,
) -> Seq<Seq<char>> {
    seq!["\x1b[36m◆\x1b[0m  Type the name of a task: \x1b[4m"@ + query + "\x1b[0m"@] + pick_lines(
        items,
        matches,
        cursor,
        matches.len() as int,
    ) + (if matches.len() == 0 {
        seq!["\x1b[36m│\x1b[0m  \x1b[2mNo matches\x1b[0m"@]
    } else {
        Seq::empty()
    }) + preview_lines(items, matches, cursor) + seq![
        "\x1b[36m│\x1b[0m"@,
        "\x1b[36m└\x1b[0m  \x1b[2m"@ + footer + "\x1b[0m"@,
    ]
}

fn push_preview(out: &mut Vec<String>, items: &Vec<PickItem>, matches: &Vec<usize>, cursor: usize)
    ensures
        texts(final(out)@) == texts(old(out)@) + preview_lines(items@, matches@, cursor as int),
{
    let ghost before = texts(out@);
    if cursor < matches.len() && matches[cursor] < items.len() {
        match &items[matches[cursor]].preview {
            Some(preview) => {
                let shown = split_lines(&to_chars(preview.as_str()));
                out.push("\x1b[36m│\x1b[0m".to_owned());
                let ghost head = seq!["\x1b[36m│\x1b[0m"@];
                let ghost all = Seq::new(
                    rows(shown@).len(),
                    |i: int| "\x1b[36m│\x1b[0m  \x1b[33m"@ + rows(shown@)[i] + "\x1b[0m"@,
                );
                assert(texts(out@) =~= before + head + all.take(0));
                let mut i: usize = 0;
                while i < shown.len()
                    invariant
                        i <= shown.len(),
                        all == Seq::new(
                            rows(shown@).len(),
                            |i: int| "\x1b[36m│\x1b[0m  \x1b[33m"@ + rows(shown@)[i] + "\x1b[0m"@,
                        ),
                        texts(out@) == before + head + all.take(i as int),
                    decreases shown.len() - i,
                {
                    let text = from_chars(&shown[i]);
                    let line = concat3("\x1b[36m│\x1b[0m  \x1b[33m", text.as_str(), "\x1b[0m");
                    let ghost so_far = texts(out@);
                    out.push(line);
                    proof {
                        assert(line@ == all[i as int]);
                        assert(texts(out@) =~= so_far.push(line@));
                        assert(before + head + all.take(i + 1) =~= so_far.push(all[i as int]));
                    }
                    i += 1;
                }
                proof {
                    assert(all.take(all.len() as int) =~= all);
                    assert(before + head + all =~= before + (head + all));
                }
            },
            None => {
                assert(before + Seq::<Seq<char>>::empty() =~= before);
            },
        }
    } else {
        assert(before + Seq::<Seq<char>>::empty() =~= before);
    }
}

/// Draws a list to pick from, as lines. `matches` holds the positions
/// of the entries on offer.
pub fn render_pick(
    items: &Vec<PickItem>,
    matches: &Vec<usize>,
    cursor: usize,
    query: &str,
    footer: &str,
) -> (r: Vec<String>)
    ensures
        texts(r@) == pick_screen(items@, matches@, cursor as int, query@, footer@),
{
    let mut r: Vec<String> = Vec::new();
    let head = concat3("\x1b[36m◆\x1b[0m  Type the name of a task: \x1b[4m", query, "\x1b[0m");
    r.push(head);
    let ghost first = seq![head@];
    assert(texts(r@) =~= first + pick_lines(items@, matches@, cursor as int, 0));
    let mut i: usize = 0;
    while i < matches.len()
        invariant
            i <= matches.len(),
            first == seq![
                "\x1b[36m◆\x1b[0m  Type the name of a task: \x1b[4m"@ + query@ + "\x1b[0m"@,
            ],
            texts(r@) == first + pick_lines(items@, matches@, cursor as int, i as int),
        decreases matches.len() - i,
    {
        if matches[i] < items.len() {
            let item = &items[matches[i]];
            let mark = if i == cursor {
                "\x1b[36m●\x1b[0m"
            } else {
                "○"
            };
            let line = entry_text(mark, item.label.as_str(), item.description.as_str(), i == cursor);
            let ghost before = texts(r@);
            r.push(line);
            proof {
                assert(texts(r@) =~= before.push(line@));
                assert(first + pick_lines(items@, matches@, cursor as int, i as int).push(line@)
                    =~= before.push(line@));
            }
        }
        i += 1;
    }
    let ghost body = texts(r@);
    if matches.len() == 0 {
        r.push("\x1b[36m│\x1b[0m  \x1b[2mNo matches\x1b[0m".to_owned());
        assert(texts(r@) =~= body + seq!["\x1b[36m│\x1b[0m  \x1b[2mNo matches\x1b[0m"@]);
    } else {
        assert(texts(r@) =~= body + Seq::<Seq<char>>::empty());
    }
    push_preview(&mut r, items, matches, cursor);
    let ghost upper = texts(r@);
    r.push("\x1b[36m│\x1b[0m".to_owned());
    let foot = concat3("\x1b[36m└\x1b[0m  \x1b[2m", footer, "\x1b[0m");
    r.push(foot);
    assert(texts(r@) =~= upper + seq!["\x1b[36m│\x1b[0m"@, foot@]);
    r
}

} // verus!
