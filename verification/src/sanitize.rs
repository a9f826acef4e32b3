//! Turning an entry's stored name into a path that cannot leave the output
//! directory.
//!
//! A stored name is split on `/`. Empty segments and segments equal to `..`
//! are dropped; the segments that remain are pushed one by one onto the
//! output directory.

use vstd::prelude::*;
use vstd::std_specs::iter::IteratorSpec;
use vstd::string::*;

verus! {

/// The separator between the segments of a stored entry name.
pub const SEPARATOR: char = '/';

/// The position of the first separator in `name`, or the length of `name`
/// when it holds none.
pub open spec fn first_separator(name: Seq<char>) -> nat
    decreases name.len(),
{
    if name.len() == 0 || name[0] == '/' {
        0
    } else {
        1 + first_separator(name.drop_first())
    }
}

/// The segments of `name` between its separators, empty ones included.
pub open spec fn split_segments(name: Seq<char>) -> Seq<Seq<char>>
    decreases name.len(),
{
    let k = first_separator(name) as int;
    if k >= name.len() {
        seq![name]
    } else {
        seq![name.subrange(0, k)] + split_segments(name.subrange(k + 1, name.len() as int))
    }
}

/// Whether `segment` is the parent-directory marker `..`.
pub open spec fn is_parent_marker(segment: Seq<char>) -> bool {
    segment.len() == 2 && segment[0] == '.' && segment[1] == '.'
}

/// Whether a segment survives sanitizing: it is neither empty nor `..`.
pub open spec fn is_kept(segment: Seq<char>) -> bool {
    segment.len() > 0 && !is_parent_marker(segment)
}

/// The segments of `name` that survive sanitizing, in their order.
pub open spec fn sanitized_segments(name: Seq<char>) -> Seq<Seq<char>> {
    split_segments(name).filter(|segment: Seq<char>| is_kept(segment))
}

/// Whether `segment` names one step downwards: it is not empty, holds no
/// separator and is not `..`.
pub open spec fn is_safe_segment(segment: Seq<char>) -> bool {
    &&& segment.len() > 0
    &&& !is_parent_marker(segment)
    &&& forall|j: int| 0 <= j < segment.len() ==> segment[j] != '/'
}

/// Whether every segment of `segments` is safe.
pub open spec fn all_safe(segments: Seq<Seq<char>>) -> bool {
    forall|i: int| 0 <= i < segments.len() ==> is_safe_segment(#[trigger] segments[i])
}

/// The text of each string of `strings`.
pub open spec fn texts(strings: Seq<String>) -> Seq<Seq<char>> {
    strings.map_values(|s: String| s@)
}

/// `segment` alone if it is kept, nothing otherwise.
pub open spec fn kept_part(segment: Seq<char>) -> Seq<Seq<char>> {
    if is_kept(segment) {
        seq![segment]
    } else {
        Seq::empty()
    }
}

/// A run of `k` characters without a separator, followed by a separator or
/// by the end of `name`, puts the first separator at `k`.
proof fn lemma_first_separator(name: Seq<char>, k: int)
    requires
        0 <= k <= name.len(),
        forall|j: int| 0 <= j < k ==> name[j] != '/',
        k == name.len() || name[k] == '/',
    ensures
        first_separator(name) == k,
    decreases k,
{
    if k > 0 {
        let rest = name.drop_first();
        assert forall|j: int| 0 <= j < k - 1 implies rest[j] != '/' by {
            assert(rest[j] == name[j + 1]);
        }
        lemma_first_separator(rest, k - 1);
    }
}

/// The first separator lies within the name, nothing before it is a
/// separator, and it is one itself unless the name ends there.
proof fn lemma_first_separator_is_first(name: Seq<char>)
    ensures
        first_separator(name) <= name.len(),
        forall|j: int| 0 <= j < first_separator(name) ==> name[j] != '/',
        first_separator(name) < name.len() ==> name[first_separator(name) as int] == '/',
    decreases name.len(),
{
    if name.len() == 0 || name[0] == '/' {
    } else {
        let rest = name.drop_first();
        lemma_first_separator_is_first(rest);
        assert forall|j: int| 0 <= j < first_separator(name) implies name[j] != '/' by {
            if j > 0 {
                assert(rest[j - 1] == name[j]);
            }
        }
        if first_separator(name) < name.len() {
            assert(rest[first_separator(rest) as int] == name[first_separator(name) as int]);
        }
    }
}

/// Filtering a single segment keeps it or drops it.
proof fn lemma_filter_one(segment: Seq<char>)
    ensures
        seq![segment].filter(|s: Seq<char>| is_kept(s)) == kept_part(segment),
{
    let keep = |s: Seq<char>| is_kept(s);
    let one = seq![segment];
    reveal_with_fuel(Seq::filter, 2);
    assert(one.drop_last() =~= Seq::<Seq<char>>::empty());
    assert(one.last() == segment);
    assert(one.filter(keep) =~= kept_part(segment));
}

/// Sanitizing handles the first segment and then the rest of the name.
proof fn lemma_sanitized_unfold(name: Seq<char>, k: int)
    requires
        0 <= k <= name.len(),
        forall|j: int| 0 <= j < k ==> name[j] != '/',
        k == name.len() || name[k] == '/',
    ensures
        sanitized_segments(name) == kept_part(name.subrange(0, k)) + (if k < name.len() {
            sanitized_segments(name.subrange(k + 1, name.len() as int))
        } else {
            Seq::empty()
        }),
{
    let keep = |s: Seq<char>| is_kept(s);
    lemma_first_separator(name, k);
    let head = name.subrange(0, k);
    lemma_filter_one(head);
    if k < name.len() {
        let rest = name.subrange(k + 1, name.len() as int);
        assert(split_segments(name) == seq![head] + split_segments(rest));
        Seq::filter_distributes_over_add(seq![head], split_segments(rest), keep);
    } else {
        assert(head =~= name);
        assert(split_segments(name) == seq![name]);
        assert(kept_part(head) + Seq::<Seq<char>>::empty() =~= kept_part(head));
    }
}

/// Whatever the stored name, every segment that sanitizing keeps is safe:
/// not empty, without a separator, and not `..`.
pub proof fn lemma_sanitized_segments_safe(name: Seq<char>)
    ensures
        all_safe(sanitized_segments(name)),
    decreases name.len(),
{
    lemma_first_separator_is_first(name);
    let k = first_separator(name) as int;
    lemma_sanitized_unfold(name, k);
    let head = name.subrange(0, k);
    if k < name.len() {
        let rest = name.subrange(k + 1, name.len() as int);
        lemma_sanitized_segments_safe(rest);
        let tail = sanitized_segments(rest);
        assert forall|i: int| 0 <= i < (kept_part(head) + tail).len() implies is_safe_segment(
            #[trigger] (kept_part(head) + tail)[i],
        ) by {
            if i < kept_part(head).len() {
                assert((kept_part(head) + tail)[i] == head);
            } else {
                assert((kept_part(head) + tail)[i] == tail[i - kept_part(head).len()]);
            }
        }
    } else {
        assert forall|i: int|
            0 <= i < (kept_part(head) + Seq::<Seq<char>>::empty()).len() implies is_safe_segment(
            #[trigger] (kept_part(head) + Seq::<Seq<char>>::empty())[i],
        ) by {
            assert((kept_part(head) + Seq::<Seq<char>>::empty())[i] == head);
        }
    }
}

/// A relative path made of safe segments only.
pub struct SanitizedPath {
    segments: Vec<String>,
}

impl View for SanitizedPath {
    type V = Seq<Seq<char>>;

    closed spec fn view(&self) -> Seq<Seq<char>> {
        texts(self.segments@)
    }
}

impl SanitizedPath {
    #[verifier::type_invariant]
    spec fn only_safe_segments(&self) -> bool {
        all_safe(texts(self.segments@))
    }

    /// The number of segments.
    pub fn len(&self) -> (n: usize)
        ensures
            n == self@.len(),
    {
        self.segments.len()
    }

    /// Whether the path has no segment, and so names the directory it is
    /// joined onto.
    pub fn is_empty(&self) -> (empty: bool)
        ensures
            empty == (self@.len() == 0),
    {
        self.segments.len() == 0
    }

    /// The segment at `index`.
    pub fn segment(&self, index: usize) -> (segment: &str)
        requires
            index < self@.len(),
        ensures
            segment@ == self@[index as int],
            is_safe_segment(segment@),
    {
        proof {
            use_type_invariant(self);
        }
        self.segments[index].as_str()
    }

    /// The segments, in order.
    pub fn segments(&self) -> (segments: &Vec<String>)
        ensures
            texts(segments@) == self@,
            all_safe(self@),
    {
        proof {
            use_type_invariant(self);
        }
        &self.segments
    }
}

/// Appending a character to a string.
///
/// Trusted: this states what the standard library documents of
/// `String::push`, that the character is added at the end and nothing else
/// changes. Verus does not read the function's body.
pub assume_specification[ String::push ](text: &mut String, c: char)
    ensures
        final(text)@ == old(text)@.push(c),
;

/// Appends `segment` to `segments` when it is a kept segment.
fn keep_segment(segment: String, length: usize, only_dots: bool, segments: &mut Vec<String>)
    requires
        length == segment@.len(),
        forall|j: int| 0 <= j < segment@.len() ==> segment@[j] != '/',
        only_dots == (forall|j: int| 0 <= j < segment@.len() ==> segment@[j] == '.'),
        all_safe(texts(old(segments)@)),
    ensures
        texts(final(segments)@) == texts(old(segments)@) + kept_part(segment@),
        all_safe(texts(final(segments)@)),
{
    let ghost text = segment@;
    if length > 0 && !(length == 2 && only_dots) {
        proof {
            if length == 2 {
                let j = choose|j: int| 0 <= j < text.len() && text[j] != '.';
                assert(text[j] != '.');
            }
            assert(is_safe_segment(text));
        }
        segments.push(segment);
        proof {
            assert(texts(segments@) =~= texts(old(segments)@) + seq![text]);
        }
    } else {
        proof {
            assert(!is_kept(text));
            assert(texts(segments@) =~= texts(old(segments)@) + Seq::<Seq<char>>::empty());
        }
    }
}

/// Sanitizes a stored entry name: splits it on `/` and keeps the segments
/// that are neither empty nor `..`.
pub fn sanitized_name(name: &str) -> (path: SanitizedPath)
    ensures
        path@ == sanitized_segments(name@),
        all_safe(path@),
{
    let total: usize = name.unicode_len();
    let mut chars = name.chars();
    let mut segments: Vec<String> = Vec::new();
    let mut current: String = String::new();
    let mut start: usize = 0;
    let mut at: usize = 0;
    let mut only_dots: bool = true;
    proof {
        broadcast use axiom_spec_iter;

        assert(name@.subrange(0, total as int) =~= name@);
        assert(texts(segments@) + sanitized_segments(name@) =~= sanitized_segments(name@));
        assert(current@ =~= name@.subrange(0, 0));
    }
    while at < total
        invariant
            start <= at <= total,
            total == name@.len(),
            chars.obeys_prophetic_iter_laws(),
            chars.remaining() == name@.subrange(at as int, total as int),
            current@ == name@.subrange(start as int, at as int),
            forall|j: int| start <= j < at ==> name@[j] != '/',
            only_dots == (forall|j: int| start <= j < at ==> name@[j] == '.'),
            sanitized_segments(name@) == texts(segments@) + sanitized_segments(
                name@.subrange(start as int, total as int),
            ),
            all_safe(texts(segments@)),
        decreases total - at,
    {
        let ghost before = texts(segments@);
        let ghost piece_text = current@;
        let next = chars.next();
        assert(next == Some(name@[at as int]));
        match next {
            Some(c) => {
                if c == SEPARATOR {
                    proof {
                        lemma_piece(name@, start as int, at as int, only_dots);
                    }
                    keep_segment(current, at - start, only_dots, &mut segments);
                    current = String::new();
                    proof {
                        let pending = name@.subrange(start as int, total as int);
                        assert forall|j: int| 0 <= j < at - start implies pending[j] != '/' by {
                            assert(pending[j] == name@[start + j]);
                        }
                        assert(pending[at - start] == name@[at as int]);
                        lemma_sanitized_unfold(pending, at - start);
                        assert(pending.subrange(0, at - start) =~= piece_text);
                        assert(pending.subrange(at - start + 1, pending.len() as int)
                            =~= name@.subrange(at + 1, total as int));
                        let piece = kept_part(piece_text);
                        let rest = sanitized_segments(name@.subrange(at + 1, total as int));
                        assert(before + (piece + rest) =~= (before + piece) + rest);
                        assert(current@ =~= name@.subrange(at + 1, at + 1));
                    }
                    start = at + 1;
                    only_dots = true;
                } else {
                    if c != '.' {
                        only_dots = false;
                    }
                    current.push(c);
                    proof {
                        assert(current@ =~= name@.subrange(start as int, at + 1));
                    }
                }
            },
            None => {},
        }
        at = at + 1;
        proof {
            assert(chars.remaining() =~= name@.subrange(at as int, total as int));
        }
    }
    let ghost before = texts(segments@);
    let ghost piece_text = current@;
    proof {
        lemma_piece(name@, start as int, total as int, only_dots);
    }
    keep_segment(current, total - start, only_dots, &mut segments);
    proof {
        let pending = name@.subrange(start as int, total as int);
        assert forall|j: int| 0 <= j < pending.len() implies pending[j] != '/' by {
            assert(pending[j] == name@[start + j]);
        }
        lemma_sanitized_unfold(pending, pending.len() as int);
        assert(pending.subrange(0, pending.len() as int) =~= pending);
        let piece = kept_part(pending);
        assert(before + (piece + Seq::<Seq<char>>::empty()) =~= before + piece);
    }
    SanitizedPath { segments }
}

/// What holds of the characters of `name` from `start` up to `end` holds of
/// the piece cut out there.
proof fn lemma_piece(name: Seq<char>, start: int, end: int, only_dots: bool)
    requires
        0 <= start <= end <= name.len(),
        forall|j: int| start <= j < end ==> name[j] != '/',
        only_dots == (forall|j: int| start <= j < end ==> name[j] == '.'),
    ensures
        forall|j: int| 0 <= j < end - start ==> name.subrange(start, end)[j] != '/',
        only_dots == (forall|j: int|
            0 <= j < name.subrange(start, end).len() ==> name.subrange(start, end)[j] == '.'),
{
    let piece = name.subrange(start, end);
    assert forall|j: int| 0 <= j < end - start implies piece[j] != '/' by {
        assert(piece[j] == name[start + j]);
    }
    if only_dots {
        assert forall|j: int| 0 <= j < piece.len() implies piece[j] == '.' by {
            assert(piece[j] == name[start + j]);
        }
    } else {
        let j = choose|j: int| start <= j < end && name[j] != '.';
        assert(piece[j - start] == name[j]);
    }
}

/// `path` with `segment` pushed onto it: a separator goes between the two
/// unless `path` is empty or already ends in one.
pub open spec fn push_component(path: Seq<char>, segment: Seq<char>) -> Seq<char> {
    if path.len() == 0 || path.last() == '/' {
        path + segment
    } else {
        path.push('/') + segment
    }
}

/// `base` with each of `segments` pushed onto it in turn.
pub open spec fn join_under(base: Seq<char>, segments: Seq<Seq<char>>) -> Seq<char>
    decreases segments.len(),
{
    if segments.len() == 0 {
        base
    } else {
        join_under(push_component(base, segments.first()), segments.drop_first())
    }
}

/// Where the entry stored as `name` lands when extracting into `output_dir`.
pub open spec fn output_location(output_dir: Seq<char>, name: Seq<char>) -> Seq<char> {
    join_under(output_dir, sanitized_segments(name))
}

impl SanitizedPath {
    /// Joins this path onto `output_dir`.
    pub fn under(&self, output_dir: &str) -> (path: String)
        ensures
            path@ == join_under(output_dir@, self@),
    {
        proof {
            use_type_invariant(self);
        }
        let count: usize = self.segments.len();
        let base_len: usize = output_dir.unicode_len();
        let mut needs_separator: bool = base_len > 0 && output_dir.get_char(base_len - 1)
            != SEPARATOR;
        let mut path: String = output_dir.to_owned();
        let mut i: usize = 0;
        proof {
            assert(self@.subrange(0, count as int) =~= self@);
        }
        while i < count
            invariant
                i <= count,
                count == self.segments@.len(),
                self@ == texts(self.segments@),
                all_safe(self@),
                needs_separator == (path@.len() > 0 && path@.last() != '/'),
                join_under(path@, self@.subrange(i as int, count as int)) == join_under(
                    output_dir@,
                    self@,
                ),
            decreases count - i,
        {
            let ghost before = path@;
            let ghost pending = self@.subrange(i as int, count as int);
            let segment: &str = self.segments[i].as_str();
            proof {
                assert(pending.first() == self@[i as int]);
                assert(segment@ == self@[i as int]);
                assert(is_safe_segment(segment@));
                assert(pending.drop_first() =~= self@.subrange(i + 1, count as int));
            }
            if needs_separator {
                proof {
                    reveal_strlit("/");
                }
                path.append("/");
                proof {
                    assert("/"@ =~= seq!['/']);
                    assert(path@ =~= before.push('/'));
                }
            }
            path.append(segment);
            proof {
                assert(path@ =~= push_component(before, segment@));
                assert(path@.last() == segment@.last());
            }
            needs_separator = true;
            i = i + 1;
        }
        path
    }
}

/// Computes where the entry stored as `name` lands when extracting into
/// `output_dir`.
pub fn output_path(output_dir: &str, name: &str) -> (path: String)
    ensures
        path@ == output_location(output_dir@, name@),
{
    sanitized_name(name).under(output_dir)
}

/// `segments` joined by single separators, with nothing before them.
pub open spec fn relative_text(segments: Seq<Seq<char>>) -> Seq<char> {
    join_under(Seq::empty(), segments)
}

/// What pushing a segment onto `base` puts between the two.
pub open spec fn joint(base: Seq<char>) -> Seq<char> {
    if base.len() == 0 || base.last() == '/' {
        Seq::empty()
    } else {
        seq!['/']
    }
}

/// Pushing safe segments onto a path that ends in a segment leaves
/// everything before that segment untouched.
proof fn lemma_join_keeps_front(front: Seq<char>, back: Seq<char>, segments: Seq<Seq<char>>)
    requires
        back.len() > 0,
        back.last() != '/',
        all_safe(segments),
    ensures
        join_under(front + back, segments) == front + join_under(back, segments),
    decreases segments.len(),
{
    if segments.len() > 0 {
        let head = segments.first();
        let rest = segments.drop_first();
        assert(is_safe_segment(head));
        assert forall|i: int| 0 <= i < rest.len() implies is_safe_segment(#[trigger] rest[i]) by {
            assert(rest[i] == segments[i + 1]);
        }
        let grown = push_component(back, head);
        assert((front + back).last() == back.last());
        assert(push_component(front + back, head) =~= front + grown);
        assert(grown.last() == head.last());
        lemma_join_keeps_front(front, grown, rest);
    }
}

/// The joined text of safe segments is the first segment, followed, if there
/// are more, by a separator and the joined text of the others.
proof fn lemma_relative_text_unfold(segments: Seq<Seq<char>>)
    requires
        segments.len() > 0,
        all_safe(segments),
    ensures
        relative_text(segments) == if segments.len() == 1 {
            segments.first()
        } else {
            segments.first().push('/') + relative_text(segments.drop_first())
        },
        all_safe(segments.drop_first()),
{
    let head = segments.first();
    let rest = segments.drop_first();
    assert(is_safe_segment(head));
    assert forall|i: int| 0 <= i < rest.len() implies is_safe_segment(#[trigger] rest[i]) by {
        assert(rest[i] == segments[i + 1]);
    }
    let empty = Seq::<char>::empty();
    assert(push_component(empty, head) =~= head);
    assert(relative_text(segments) == join_under(head, rest));
    if rest.len() > 0 {
        let second = rest.first();
        let others = rest.drop_first();
        assert(is_safe_segment(second));
        assert forall|i: int| 0 <= i < others.len() implies is_safe_segment(
            #[trigger] others[i],
        ) by {
            assert(others[i] == rest[i + 1]);
        }
        assert(push_component(head, second) == head.push('/') + second);
        lemma_join_keeps_front(head.push('/'), second, others);
        assert(push_component(empty, second) =~= second);
        assert(relative_text(rest) == join_under(second, others));
    } else {
        assert(join_under(head, rest) == head);
    }
}

/// Pushing safe segments onto `base` yields `base`, the joint, and the
/// joined text of the segments.
proof fn lemma_join_is_concatenation(base: Seq<char>, segments: Seq<Seq<char>>)
    requires
        segments.len() > 0,
        all_safe(segments),
    ensures
        join_under(base, segments) == base + joint(base) + relative_text(segments),
        relative_text(segments).len() > 0,
{
    let head = segments.first();
    let rest = segments.drop_first();
    lemma_relative_text_unfold(segments);
    assert(is_safe_segment(head));
    let empty = Seq::<char>::empty();
    assert(push_component(empty, head) =~= head);
    assert(relative_text(segments) == join_under(head, rest));
    assert(push_component(base, head) =~= (base + joint(base)) + head);
    lemma_join_keeps_front(base + joint(base), head, rest);
}

/// Splitting the joined text of safe segments gives the segments back.
proof fn lemma_split_of_relative_text(segments: Seq<Seq<char>>)
    requires
        segments.len() > 0,
        all_safe(segments),
    ensures
        split_segments(relative_text(segments)) == segments,
    decreases segments.len(),
{
    let head = segments.first();
    let rest = segments.drop_first();
    let text = relative_text(segments);
    lemma_relative_text_unfold(segments);
    assert(is_safe_segment(head));
    if segments.len() == 1 {
        lemma_first_separator(text, text.len() as int);
        assert(seq![head] =~= segments);
    } else {
        let k = head.len() as int;
        assert forall|j: int| 0 <= j < k implies text[j] != '/' by {
            assert(text[j] == head[j]);
        }
        assert(text[k] == '/');
        lemma_first_separator(text, k);
        assert(text.subrange(0, k) =~= head);
        assert(text.subrange(k + 1, text.len() as int) =~= relative_text(rest));
        lemma_split_of_relative_text(rest);
        assert(seq![head] + rest =~= segments);
    }
}

/// Filtering safe segments drops none of them.
proof fn lemma_safe_segments_are_kept(segments: Seq<Seq<char>>)
    requires
        all_safe(segments),
    ensures
        segments.filter(|s: Seq<char>| is_kept(s)) == segments,
    decreases segments.len(),
{
    reveal(Seq::filter);
    if segments.len() > 0 {
        let front = segments.drop_last();
        assert forall|i: int| 0 <= i < front.len() implies is_safe_segment(
            #[trigger] front[i],
        ) by {
            assert(front[i] == segments[i]);
        }
        lemma_safe_segments_are_kept(front);
        assert(is_safe_segment(segments.last()));
        assert(front.push(segments.last()) =~= segments);
    }
}

/// An entry whose stored name keeps at least one segment lands strictly
/// below the output directory.
///
/// The computed path starts with the output directory and goes on after it.
/// What follows the output directory, split on the separator, holds no `..`
/// segment, and read as a stored name of its own it sanitizes to the same
/// segments as the entry's name: walking it from the output directory only
/// ever steps downwards.
pub proof fn lemma_output_stays_below(output_dir: Seq<char>, name: Seq<char>)
    requires
        sanitized_segments(name).len() > 0,
    ensures
        ({
            let path = output_location(output_dir, name);
            let below = path.subrange(output_dir.len() as int, path.len() as int);
            &&& path.len() > output_dir.len()
            &&& path.subrange(0, output_dir.len() as int) == output_dir
            &&& sanitized_segments(below) == sanitized_segments(name)
            &&& forall|i: int|
                0 <= i < split_segments(below).len() ==> !is_parent_marker(
                    #[trigger] split_segments(below)[i],
                )
        }),
{
    let keep = |s: Seq<char>| is_kept(s);
    let segments = sanitized_segments(name);
    lemma_sanitized_segments_safe(name);
    lemma_join_is_concatenation(output_dir, segments);
    lemma_split_of_relative_text(segments);
    lemma_safe_segments_are_kept(segments);
    let path = output_location(output_dir, name);
    let text = relative_text(segments);
    let below = path.subrange(output_dir.len() as int, path.len() as int);
    assert(path.subrange(0, output_dir.len() as int) =~= output_dir);
    assert(below =~= joint(output_dir) + text);
    if joint(output_dir).len() == 0 {
        assert(below =~= text);
    } else {
        assert(below[0] == '/');
        assert(first_separator(below) == 0);
        assert(below.subrange(0, 0) =~= Seq::<char>::empty());
        assert(below.subrange(1, below.len() as int) =~= text);
        let blank = seq![Seq::<char>::empty()];
        assert(split_segments(below) == blank + segments);
        Seq::filter_distributes_over_add(blank, segments, keep);
        lemma_filter_one(Seq::<char>::empty());
        assert(Seq::<Seq<char>>::empty() + segments =~= segments);
    }
    assert forall|i: int| 0 <= i < split_segments(below).len() implies !is_parent_marker(
        #[trigger] split_segments(below)[i],
    ) by {
        if joint(output_dir).len() == 0 {
            assert(is_safe_segment(segments[i]));
        } else if i > 0 {
            assert(split_segments(below)[i] == segments[i - 1]);
            assert(is_safe_segment(segments[i - 1]));
        }
    }
}

/// An entry whose stored name keeps no segment, such as the empty name or
/// `..`, lands on the output directory itself.
pub proof fn lemma_output_of_nothing(output_dir: Seq<char>, name: Seq<char>)
    requires
        sanitized_segments(name).len() == 0,
    ensures
        output_location(output_dir, name) == output_dir,
{
}

} // verus!
