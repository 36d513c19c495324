//! Tags in file names.
//!
//! A tag stands between square brackets: `[Hogwarts Legacy]`, `[mode=hard]`.
//! What is inside is a value, or a key and a value around `=`. A value has
//! levels, parted by `∕` (U+2215) or by three underscores: `[other∕gaming]`.
//! Tags may stand anywhere in a name, with free text around them.

use crate::text::{chars_of, find_char, first_index_of, trim_range, trimmed};
use vstd::prelude::*;
use vstd::string::*;

verus! {

/// The character that parts the levels of a value: U+2215, the division slash.
pub const DIVISION: char = '\u{2215}';

/// A value with its levels: `parent` is the outermost, `child` the rest.
#[derive(Debug, PartialEq, Eq)]
pub struct TagValue {
    pub parent: String,
    pub child: Option<Box<TagValue>>,
}

/// One tag.
#[derive(Debug, PartialEq, Eq)]
pub enum Tag {
    Value(TagValue),
    KV { key: TagValue, val: TagValue },
}

/// A tag as the levels of its values, outermost first.
pub enum TagView {
    Value(Seq<Seq<char>>),
    KV { key: Seq<Seq<char>>, val: Seq<Seq<char>> },
}

impl TagValue {
    /// The levels of the value, outermost first. There is at least one.
    pub open spec fn levels(&self) -> Seq<Seq<char>>
        decreases self,
    {
        match self.child {
            Some(child) => seq![self.parent@] + child.levels(),
            None => seq![self.parent@],
        }
    }
}

impl TagValue {
    /// A copy with the same levels.
    pub fn duplicate(&self) -> (copy: TagValue)
        ensures
            copy@ == self@,
        decreases self,
    {
        let child = match &self.child {
            Some(below) => Some(Box::new(below.duplicate())),
            None => None,
        };
        TagValue { parent: self.parent.clone(), child }
    }
}

impl Clone for TagValue {
    fn clone(&self) -> (copy: TagValue)
        ensures
            copy@ == self@,
    {
        self.duplicate()
    }
}

impl Clone for Tag {
    fn clone(&self) -> (copy: Tag)
        ensures
            copy@ == self@,
    {
        match self {
            Tag::Value(value) => Tag::Value(value.duplicate()),
            Tag::KV { key, val } => Tag::KV { key: key.duplicate(), val: val.duplicate() },
        }
    }
}

impl View for TagValue {
    type V = Seq<Seq<char>>;

    open spec fn view(&self) -> Seq<Seq<char>> {
        self.levels()
    }
}

impl View for Tag {
    type V = TagView;

    open spec fn view(&self) -> TagView {
        match self {
            Tag::Value(value) => TagView::Value(value@),
            Tag::KV { key, val } => TagView::KV { key: key@, val: val@ },
        }
    }
}

/// Whether `c` may stand inside a value: an ASCII letter or digit, or one of
/// the characters ` -&@…()~_∕`.
pub open spec fn is_tag_text(c: char) -> bool {
    ||| 'a' <= c <= 'z'
    ||| 'A' <= c <= 'Z'
    ||| '0' <= c <= '9'
    ||| c == ' '
    ||| c == '-'
    ||| c == '&'
    ||| c == '@'
    ||| c == '\u{2026}'
    ||| c == '('
    ||| c == ')'
    ||| c == '~'
    ||| c == '_'
    ||| c == DIVISION
}

/// Whether `c` may stand inside a value.
pub fn tag_text(c: char) -> (yes: bool)
    ensures
        yes == is_tag_text(c),
{
    (c >= 'a' && c <= 'z') || (c >= 'A' && c <= 'Z') || (c >= '0' && c <= '9') || c == ' ' || c
        == '-' || c == '&' || c == '@' || c == '\u{2026}' || c == '(' || c == ')' || c == '~' || c
        == '_' || c == DIVISION
}

/// Where the text of a value that begins at `from` ends: the first index
/// from `from` on at which no value character stands.
pub open spec fn run_end(s: Seq<char>, from: int) -> int
    decreases s.len() - from,
{
    if 0 <= from < s.len() && is_tag_text(s[from]) {
        run_end(s, from + 1)
    } else {
        from
    }
}

/// Puts `head` in front of the first of `parts`.
pub open spec fn prepend_to_first(head: Seq<char>, parts: Seq<Seq<char>>) -> Seq<Seq<char>> {
    parts.update(0, head + parts[0])
}

/// How many characters of `s` part two levels at its beginning: 1 for the
/// division slash, 3 for three underscores, 0 where no separator stands.
pub open spec fn separator_width(s: Seq<char>) -> int {
    if s.len() >= 1 && s[0] == DIVISION {
        1
    } else if s.len() >= 3 && s[0] == '_' && s[1] == '_' && s[2] == '_' {
        3
    } else {
        0
    }
}

/// The text of a value cut into its levels, read from the left: each
/// division slash and each run of three underscores parts two levels.
pub open spec fn split_levels(s: Seq<char>) -> Seq<Seq<char>>
    decreases s.len(),
{
    if s.len() == 0 {
        seq![Seq::<char>::empty()]
    } else if separator_width(s) > 0 {
        seq![Seq::<char>::empty()] + split_levels(s.skip(separator_width(s)))
    } else {
        prepend_to_first(seq![s[0]], split_levels(s.skip(1)))
    }
}

/// The levels of the value written as `s`: its parts, each without the
/// white space around it.
pub open spec fn value_levels(s: Seq<char>) -> Seq<Seq<char>> {
    split_levels(s).map_values(|part: Seq<char>| trimmed(part))
}

/// What stands between the brackets, read at `from`: a value, or a key, `=`
/// and a value. Gives the tag and the index behind it; nothing where no
/// value character stands at `from`.
pub open spec fn label_at(s: Seq<char>, from: int) -> Option<(TagView, int)> {
    let key_end = run_end(s, from);
    let val_end = run_end(s, key_end + 1);
    if key_end <= from {
        None
    } else if key_end < s.len() && s[key_end] == '=' && val_end > key_end + 1 {
        Some(
            (
                TagView::KV {
                    key: value_levels(s.subrange(from, key_end)),
                    val: value_levels(s.subrange(key_end + 1, val_end)),
                },
                val_end,
            ),
        )
    } else {
        Some((TagView::Value(value_levels(s.subrange(from, key_end))), key_end))
    }
}

/// A tag read at `from`: `[`, what stands between the brackets, and `]`.
/// Gives the tag and the index behind the closing bracket.
pub open spec fn tag_at(s: Seq<char>, from: int) -> Option<(TagView, int)> {
    if 0 <= from < s.len() && s[from] == '[' {
        match label_at(s, from + 1) {
            Some((tag, end)) => if end < s.len() && s[end] == ']' {
                Some((tag, end + 1))
            } else {
                None
            },
            None => None,
        }
    } else {
        None
    }
}

/// The index of the first `[` from `from` on, or the length of `s`.
pub open spec fn next_bracket(s: Seq<char>, from: int) -> int {
    from + first_index_of(s.skip(from), '[')
}

/// The tags that follow from `from` on, each after free text without a `[`,
/// and where reading stopped: at the end of `s`, or at the first `[` that
/// opens no tag.
pub open spec fn tags_from(s: Seq<char>, from: int) -> (Seq<TagView>, int)
    decreases s.len() - from,
{
    let at = next_bracket(s, from);
    if 0 <= from <= at < s.len() {
        match tag_at(s, at) {
            Some((tag, end)) => if at < end <= s.len() {
                let (more, stop) = tags_from(s, end);
                (seq![tag] + more, stop)
            } else {
                (Seq::empty(), at)
            },
            None => (Seq::empty(), at),
        }
    } else {
        (Seq::empty(), s.len() as int)
    }
}

/// The tags of `s` in the order in which they stand, and where reading
/// stopped. Nothing where the first `[` of `s` opens no tag, or `s` has none.
pub open spec fn parsed_tags(s: Seq<char>) -> Option<(Seq<TagView>, int)> {
    let at = next_bracket(s, 0);
    match tag_at(s, at) {
        Some((tag, end)) => {
            let (more, stop) = tags_from(s, end);
            Some((seq![tag] + more, stop))
        },
        None => None,
    }
}

/// The end of a run lies between its beginning and the end of the text;
/// value characters fill the run, and none stands at its end.
pub proof fn lemma_run_end(s: Seq<char>, from: int)
    requires
        0 <= from <= s.len(),
    ensures
        from <= run_end(s, from) <= s.len(),
        forall|i: int| from <= i < run_end(s, from) ==> is_tag_text(#[trigger] s[i]),
        run_end(s, from) < s.len() ==> !is_tag_text(s[run_end(s, from)]),
    decreases s.len() - from,
{
    if from < s.len() && is_tag_text(s[from]) {
        lemma_run_end(s, from + 1);
    }
}

/// An index that value characters lead up to, and at which none stands, is
/// the end of the run.
pub proof fn lemma_run_end_is(s: Seq<char>, from: int, end: int)
    requires
        0 <= from <= end <= s.len(),
        forall|i: int| from <= i < end ==> is_tag_text(#[trigger] s[i]),
        end < s.len() ==> !is_tag_text(s[end]),
    ensures
        run_end(s, from) == end,
    decreases end - from,
{
    if from < end {
        lemma_run_end_is(s, from + 1, end);
    }
}

/// A text always has at least one level.
pub proof fn lemma_split_levels_nonempty(s: Seq<char>)
    ensures
        split_levels(s).len() >= 1,
    decreases s.len(),
{
    if s.len() == 0 {
    } else if separator_width(s) > 0 {
        lemma_split_levels_nonempty(s.skip(separator_width(s)));
    } else {
        lemma_split_levels_nonempty(s.skip(1));
    }
}

impl TagValue {
    /// Builds a value from its levels, outermost first, taking the white
    /// space off both ends of each. No levels give no value.
    pub fn from_slice_of_parts(ts: &[&str]) -> (value: Option<TagValue>)
        ensures
            value is Some <==> ts@.len() > 0,
            value matches Some(v) ==> v@ == Seq::new(ts@.len(), |i: int| trimmed(ts@[i]@)),
    {
        let mut parts: Vec<String> = Vec::new();
        let mut i: usize = 0;
        while i < ts.len()
            invariant
                i <= ts.len(),
                parts.deep_view() == Seq::new(i as nat, |j: int| trimmed(ts@[j]@)),
            decreases ts.len() - i,
        {
            let part: &str = ts[i];
            let chars = chars_of(part);
            let (a, b) = trim_range(&chars, 0, chars.len());
            let ghost before = parts.deep_view();
            proof {
                assert(chars@.subrange(0, chars@.len() as int) =~= chars@);
            }
            parts.push(part.substring_char(a, b).to_owned());
            proof {
                assert(parts.deep_view() =~= before.push(trimmed(part@)));
                assert(parts.deep_view() =~= Seq::new((i + 1) as nat, |j: int| trimmed(ts@[j]@)));
            }
            i = i + 1;
        }
        Self::from_levels(&parts)
    }

    /// Builds a value from its levels as they are, outermost first. No
    /// levels give no value.
    pub fn from_levels(parts: &Vec<String>) -> (value: Option<TagValue>)
        ensures
            value is Some <==> parts.len() > 0,
            value matches Some(v) ==> v@ == parts.deep_view(),
    {
        if parts.len() == 0 {
            None
        } else {
            Some(Self::from_some_levels(parts))
        }
    }

    /// Builds a value from its levels, of which there is at least one.
    fn from_some_levels(parts: &Vec<String>) -> (value: TagValue)
        requires
            parts.len() > 0,
        ensures
            value@ == parts.deep_view(),
    {
        let last = parts.len() - 1;
        let mut value = TagValue { parent: parts[last].clone(), child: None };
        let mut i: usize = last;
        proof {
            assert(value.levels() =~= parts.deep_view().skip(i as int));
        }
        while i > 0
            invariant
                i < parts.len(),
                value.levels() == parts.deep_view().skip(i as int),
            decreases i,
        {
            i = i - 1;
            let ghost below = value.levels();
            value = TagValue { parent: parts[i].clone(), child: Some(Box::new(value)) };
            proof {
                assert(value.levels() =~= seq![parts@[i as int]@] + below);
                assert(value.levels() =~= parts.deep_view().skip(i as int));
            }
        }
        proof {
            assert(parts.deep_view().skip(0) =~= parts.deep_view());
        }
        value
    }
}

/// The end of the run of value characters that begins at `from`.
fn scan_run(chars: &Vec<char>, from: usize) -> (end: usize)
    requires
        from <= chars.len(),
    ensures
        from <= end <= chars.len(),
        end == run_end(chars@, from as int),
{
    let mut i: usize = from;
    while i < chars.len() && tag_text(chars[i])
        invariant
            from <= i <= chars.len(),
            forall|j: int| from <= j < i ==> is_tag_text(#[trigger] chars@[j]),
        decreases chars.len() - i,
    {
        i = i + 1;
    }
    proof {
        lemma_run_end_is(chars@, from as int, i as int);
    }
    i
}

/// The width of the separator that stands at `i` in `chars[..to]`.
fn separator_at(chars: &Vec<char>, i: usize, to: usize) -> (width: usize)
    requires
        i < to <= chars.len(),
    ensures
        width == separator_width(chars@.subrange(i as int, to as int)),
        width == 0 || width == 1 || width == 3,
        i + width <= to,
{
    let ghost rest = chars@.subrange(i as int, to as int);
    proof {
        assert(rest[0] == chars@[i as int]);
        if to - i >= 3 {
            assert(rest[1] == chars@[i + 1]);
            assert(rest[2] == chars@[i + 2]);
        }
    }
    if chars[i] == DIVISION {
        1
    } else if to - i >= 3 && chars[i] == '_' && chars[i + 1] == '_' && chars[i + 2] == '_' {
        3
    } else {
        0
    }
}

/// The value written as `chars[from..to]`, which is not empty.
fn read_value(text: &str, chars: &Vec<char>, from: usize, to: usize) -> (value: TagValue)
    requires
        chars@ == text@,
        from <= to <= chars.len(),
    ensures
        value@ == value_levels(chars@.subrange(from as int, to as int)),
{
    let ghost run = chars@.subrange(from as int, to as int);
    let ghost trim = |part: Seq<char>| trimmed(part);
    let mut parts: Vec<String> = Vec::new();
    let ghost mut finished: Seq<Seq<char>> = Seq::empty();
    let mut part_start: usize = from;
    let mut i: usize = from;
    proof {
        lemma_split_levels_nonempty(run);
        assert(chars@.subrange(from as int, from as int) =~= Seq::<char>::empty());
        assert(prepend_to_first(Seq::<char>::empty(), split_levels(run)) =~= split_levels(run));
        assert(finished + split_levels(run) =~= split_levels(run));
        assert(parts.deep_view() =~= finished.map_values(trim));
    }
    while i < to
        invariant
            chars@ == text@,
            from <= part_start <= i <= to <= chars.len(),
            run == chars@.subrange(from as int, to as int),
            trim == |part: Seq<char>| trimmed(part),
            split_levels(run) == finished + prepend_to_first(
                chars@.subrange(part_start as int, i as int),
                split_levels(chars@.subrange(i as int, to as int)),
            ),
            parts.deep_view() == finished.map_values(trim),
        decreases to - i,
    {
        let ghost rest = chars@.subrange(i as int, to as int);
        let ghost current = chars@.subrange(part_start as int, i as int);
        let width = separator_at(chars, i, to);
        if width > 0 {
            let (a, b) = trim_range(chars, part_start, i);
            let ghost before = parts.deep_view();
            parts.push(text.substring_char(a, b).to_owned());
            proof {
                let after = chars@.subrange(i + width, to as int);
                assert(rest.skip(width as int) =~= after);
                lemma_split_levels_nonempty(after);
                assert(prepend_to_first(current, seq![Seq::<char>::empty()] + split_levels(after))
                    =~= seq![current] + split_levels(after));
                assert(chars@.subrange(i + width, i + width) =~= Seq::<char>::empty());
                assert(prepend_to_first(Seq::<char>::empty(), split_levels(after)) =~= split_levels(
                    after,
                ));
                assert(finished + (seq![current] + split_levels(after)) =~= finished.push(current)
                    + split_levels(after));
                assert(parts.deep_view() =~= before.push(trimmed(current)));
                assert(finished.push(current).map_values(trim) =~= finished.map_values(trim).push(
                    trimmed(current),
                ));
                finished = finished.push(current);
            }
            i = i + width;
            part_start = i;
        } else {
            proof {
                let after = chars@.subrange(i + 1, to as int);
                assert(rest.skip(1) =~= after);
                lemma_split_levels_nonempty(after);
                assert(current + seq![rest[0]] =~= chars@.subrange(part_start as int, i + 1));
                assert(prepend_to_first(current, prepend_to_first(seq![rest[0]], split_levels(after)))
                    =~~= prepend_to_first(current + seq![rest[0]], split_levels(after)));
            }
            i = i + 1;
        }
    }
    let (a, b) = trim_range(chars, part_start, to);
    let ghost before = parts.deep_view();
    let ghost current = chars@.subrange(part_start as int, to as int);
    parts.push(text.substring_char(a, b).to_owned());
    proof {
        assert(chars@.subrange(to as int, to as int) =~= Seq::<char>::empty());
        assert(prepend_to_first(current, seq![Seq::<char>::empty()]) =~= seq![current]);
        assert(finished + seq![current] =~= finished.push(current));
        assert(parts.deep_view() =~= before.push(trimmed(current)));
        assert(finished.push(current).map_values(trim) =~= finished.map_values(trim).push(
            trimmed(current),
        ));
        assert(parts.deep_view() =~= value_levels(run));
    }
    TagValue::from_some_levels(&parts)
}

/// Reads what stands between the brackets at `from`.
fn read_label(text: &str, chars: &Vec<char>, from: usize) -> (found: Option<(Tag, usize)>)
    requires
        chars@ == text@,
        from <= chars.len(),
    ensures
        match found {
            Some((tag, end)) => label_at(chars@, from as int) == Some((tag@, end as int)) && from
                < end <= chars.len(),
            None => label_at(chars@, from as int) is None,
        },
{
    let key_end = scan_run(chars, from);
    if key_end == from {
        return None;
    }
    let key = read_value(text, chars, from, key_end);
    if key_end < chars.len() && chars[key_end] == '=' {
        let val_end = scan_run(chars, key_end + 1);
        if val_end > key_end + 1 {
            let val = read_value(text, chars, key_end + 1, val_end);
            return Some((Tag::KV { key, val }, val_end));
        }
    }
    proof {
        if key_end >= chars.len() {
            assert(!(key_end < chars@.len()));
        }
    }
    Some((Tag::Value(key), key_end))
}

/// Reads a tag at `from`.
fn read_tag(text: &str, chars: &Vec<char>, from: usize) -> (found: Option<(Tag, usize)>)
    requires
        chars@ == text@,
        from <= chars.len(),
    ensures
        match found {
            Some((tag, end)) => tag_at(chars@, from as int) == Some((tag@, end as int)) && from
                < end <= chars.len(),
            None => tag_at(chars@, from as int) is None,
        },
{
    if from < chars.len() && chars[from] == '[' {
        match read_label(text, chars, from + 1) {
            Some((tag, end)) => {
                if end < chars.len() && chars[end] == ']' {
                    Some((tag, end + 1))
                } else {
                    None
                }
            },
            None => None,
        }
    } else {
        None
    }
}

/// The views of a list of tags.
pub open spec fn tag_views(tags: Seq<Tag>) -> Seq<TagView> {
    Seq::new(tags.len(), |i: int| tags[i]@)
}

/// Reads what stands between the brackets of a tag at the beginning of
/// `text`: gives what follows it, and the tag.
pub fn tag_label<'a>(text: &'a str) -> (found: Option<(&'a str, Tag)>)
    ensures
        match found {
            Some((rest, tag)) => label_at(text@, 0) matches Some((view, end)) && tag@ == view
                && 0 <= end <= text@.len() && rest@ == text@.skip(end),
            None => label_at(text@, 0) is None,
        },
{
    let chars = chars_of(text);
    match read_label(text, &chars, 0) {
        Some((tag, end)) => Some((text.substring_char(end, chars.len()), tag)),
        None => None,
    }
}

/// Reads one tag at the beginning of `text`: gives what follows it, and the
/// tag.
pub fn tag<'a>(text: &'a str) -> (found: Option<(&'a str, Tag)>)
    ensures
        match found {
            Some((rest, tag)) => tag_at(text@, 0) matches Some((view, end)) && tag@ == view && 0
                <= end <= text@.len() && rest@ == text@.skip(end),
            None => tag_at(text@, 0) is None,
        },
{
    let chars = chars_of(text);
    match read_tag(text, &chars, 0) {
        Some((tag, end)) => Some((text.substring_char(end, chars.len()), tag)),
        None => None,
    }
}

/// Reads the tags of a file name, from the left.
///
/// Free text before, between and after tags is passed over. The first `[`
/// of the name must open a tag, or nothing is read. Reading stops at the end
/// of the name, or at a later `[` that opens no tag; what was not read is
/// handed back with the tags.
pub fn parse_tags<'a>(text: &'a str) -> (found: Option<(&'a str, Vec<Tag>)>)
    ensures
        match found {
            Some((rest, tags)) => parsed_tags(text@) matches Some((views, stop)) && tag_views(
                tags@,
            ) == views && 0 <= stop <= text@.len() && rest@ == text@.skip(stop),
            None => parsed_tags(text@) is None,
        },
{
    let chars = chars_of(text);
    let n = chars.len();
    proof {
        assert(chars@.subrange(0, n as int) =~= chars@.skip(0));
    }
    let first = find_char(&chars, 0, n, '[');
    let mut tags: Vec<Tag> = Vec::new();
    let mut at: usize = first;
    match read_tag(text, &chars, first) {
        None => {
            return None;
        },
        Some((tag, end)) => {
            tags.push(tag);
            at = end;
        },
    }
    let ghost head = tag_views(tags@);
    let mut stop: usize = n;
    let mut reading = true;
    proof {
        assert(head =~= seq![tags@[0]@]);
    }
    while reading
        invariant
            chars@ == text@,
            n == chars.len(),
            at <= n,
            stop <= n,
            reading ==> parsed_tags(chars@) == Some(
                (tag_views(tags@) + tags_from(chars@, at as int).0, tags_from(chars@, at as int).1),
            ),
            !reading ==> parsed_tags(chars@) == Some((tag_views(tags@), stop as int)),
        decreases n - at + (if reading { 1int } else { 0int }),
    {
        proof {
            assert(chars@.subrange(at as int, n as int) =~= chars@.skip(at as int));
        }
        let bracket = find_char(&chars, at, n, '[');
        proof {
            assert(next_bracket(chars@, at as int) == bracket);
        }
        if bracket >= n {
            stop = n;
            reading = false;
            proof {
                assert(tags_from(chars@, at as int) == (Seq::<TagView>::empty(), n as int));
                assert(tag_views(tags@) + Seq::<TagView>::empty() =~= tag_views(tags@));
            }
        } else {
            match read_tag(text, &chars, bracket) {
                None => {
                    stop = bracket;
                    reading = false;
                    proof {
                        assert(tags_from(chars@, at as int) == (
                            Seq::<TagView>::empty(),
                            bracket as int,
                        ));
                        assert(tag_views(tags@) + Seq::<TagView>::empty() =~= tag_views(tags@));
                    }
                },
                Some((tag, end)) => {
                    let ghost before = tag_views(tags@);
                    let ghost view = tag@;
                    tags.push(tag);
                    proof {
                        assert(tag_at(chars@, bracket as int) == Some((view, end as int)));
                        assert(tags_from(chars@, at as int) == (
                            seq![view] + tags_from(chars@, end as int).0,
                            tags_from(chars@, end as int).1,
                        ));
                        assert(tag_views(tags@) =~= before.push(view));
                        assert(before + (seq![view] + tags_from(chars@, end as int).0)
                            =~= before.push(view) + tags_from(chars@, end as int).0);
                    }
                    at = end;
                },
            }
        }
    }
    Some((text.substring_char(stop, n), tags))
}

} // verus!
