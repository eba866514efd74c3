//! The diff model: one entry per physical line of a line-level comparison.

use crate::text::{
    decimal, flat_lines, has_bare_cr, lemma_decimal_injective, lemma_first_line,
    lemma_lines_hold_no_newline, lemma_text_lines_add, lemma_tokens_lines, line_tokens,
    no_newline, push_char, push_decimal, split_lines, strip_cr, text_lines, views,
};
use vstd::prelude::*;
use vstd::string::StringExecFns;

verus! {

/// How a line relates the source to the target.
#[derive(Clone, Copy, Debug, PartialEq, Eq, Structural)]
pub enum ChangeTag {
    /// The line stands in both texts.
    Equal,
    /// The line stands in the source only.
    Delete,
    /// The line stands in the target only.
    Insert,
}

/// A run of text that the line differ reports under one tag. It may hold
/// several physical lines.
pub struct ChangeBlock {
    pub tag: ChangeTag,
    pub text: String,
}

/// One physical line of the comparison, without its line ending.
#[derive(Clone)]
pub struct DiffLine {
    pub tag: ChangeTag,
    pub content: String,
}

/// A tagged piece of text as contracts see it.
pub type Tagged = (ChangeTag, Seq<char>);

impl View for ChangeBlock {
    type V = Tagged;

    open spec fn view(&self) -> Tagged {
        (self.tag, self.text@)
    }
}

impl View for DiffLine {
    type V = Tagged;

    open spec fn view(&self) -> Tagged {
        (self.tag, self.content@)
    }
}

/// The blocks of a vector, each by its view.
pub open spec fn blocks_view(v: Seq<ChangeBlock>) -> Seq<Tagged> {
    Seq::new(v.len(), |i: int| v[i]@)
}

/// The entries of a diff model, each by its view.
pub open spec fn model(v: Seq<DiffLine>) -> Seq<Tagged> {
    Seq::new(v.len(), |i: int| v[i]@)
}

/// The texts of the items whose tag is not `skip`, in order. With
/// `ChangeTag::Insert` skipped this is the source side, with
/// `ChangeTag::Delete` skipped the target side.
pub open spec fn side(items: Seq<Tagged>, skip: ChangeTag) -> Seq<Seq<char>>
    decreases items.len(),
{
    if items.len() == 0 {
        Seq::empty()
    } else if items.last().0 == skip {
        side(items.drop_last(), skip)
    } else {
        side(items.drop_last(), skip).push(items.last().1)
    }
}

/// Each of `lines` under the tag `tag`.
pub open spec fn tag_lines(tag: ChangeTag, lines: Seq<Seq<char>>) -> Seq<Tagged> {
    Seq::new(lines.len(), |i: int| (tag, lines[i]))
}

/// The diff model of a sequence of blocks: every block cut into its physical
/// lines, each line under the block's tag, in the blocks' order.
pub open spec fn split_blocks(blocks: Seq<Tagged>) -> Seq<Tagged>
    decreases blocks.len(),
{
    if blocks.len() == 0 {
        Seq::empty()
    } else {
        split_blocks(blocks.drop_last()).add(
            tag_lines(blocks.last().0, text_lines(blocks.last().1)),
        )
    }
}

/// The blocks that the line differ reports for a source and a target text.
pub uninterp spec fn diff_changes(source: Seq<char>, target: Seq<char>) -> Seq<Tagged>;

/// The diff model of a source and a target text.
pub open spec fn diff_model(source: Seq<char>, target: Seq<char>) -> Seq<Tagged> {
    split_blocks(diff_changes(source, target))
}

/// Building the model twice from the same two texts gives the same
/// entries in the same order.
pub proof fn lemma_build_is_repeatable(
    source: Seq<char>,
    target: Seq<char>,
    first: Seq<Tagged>,
    second: Seq<Tagged>,
)
    requires
        first == diff_model(source, target),
        second == diff_model(source, target),
    ensures
        first == second,
        first.len() == second.len(),
        forall|i: int| 0 <= i < first.len() ==> first[i] == second[i],
{
}

/// Runs `similar::TextDiff::from_lines` on the two texts and collects what
/// `iter_all_changes` yields, tag and value of each change. Trusted: the
/// blocks are a function of the two texts; the values that are not inserted
/// are the line tokens of the source in order, and the values that are not
/// deleted are the line tokens of the target in order.
#[verifier::external_body]
fn line_changes(source: &str, target: &str) -> (blocks: Vec<ChangeBlock>)
    ensures
        blocks_view(blocks@) == diff_changes(source@, target@),
        side(blocks_view(blocks@), ChangeTag::Insert) == line_tokens(source@),
        side(blocks_view(blocks@), ChangeTag::Delete) == line_tokens(target@),
{
    let diff = similar::TextDiff::from_lines(source, target);
    let mut blocks = Vec::new();
    for change in diff.iter_all_changes() {
        let tag = match change.tag() {
            similar::ChangeTag::Equal => ChangeTag::Equal,
            similar::ChangeTag::Delete => ChangeTag::Delete,
            similar::ChangeTag::Insert => ChangeTag::Insert,
        };
        blocks.push(ChangeBlock { tag, text: change.value().to_string() });
    }
    blocks
}

/// `side` of a concatenation is the concatenation of the sides.
pub proof fn lemma_side_add(x: Seq<Tagged>, y: Seq<Tagged>, skip: ChangeTag)
    ensures
        side(x.add(y), skip) == side(x, skip).add(side(y, skip)),
    decreases y.len(),
{
    if y.len() == 0 {
        assert(x.add(y) == x);
    } else {
        lemma_side_add(x, y.drop_last(), skip);
        assert(x.add(y).drop_last() == x.add(y.drop_last()));
        assert(x.add(y).last() == y.last());
    }
}

/// Lines under one tag are all on a side, or none of them is.
pub proof fn lemma_side_tag_lines(tag: ChangeTag, lines: Seq<Seq<char>>, skip: ChangeTag)
    ensures
        side(tag_lines(tag, lines), skip) == if tag == skip {
            Seq::<Seq<char>>::empty()
        } else {
            lines
        },
    decreases lines.len(),
{
    if lines.len() > 0 {
        lemma_side_tag_lines(tag, lines.drop_last(), skip);
        assert(tag_lines(tag, lines).drop_last() == tag_lines(tag, lines.drop_last()));
        assert(tag_lines(tag, lines).last() == (tag, lines.last()));
        if tag != skip {
            assert(lines.drop_last().push(lines.last()) == lines);
        }
    }
}

/// A side of the diff model holds the physical lines of the blocks of that
/// side, block after block.
pub proof fn lemma_split_blocks_side(blocks: Seq<Tagged>, skip: ChangeTag)
    ensures
        side(split_blocks(blocks), skip) == flat_lines(side(blocks, skip)),
    decreases blocks.len(),
{
    if blocks.len() > 0 {
        let last = blocks.last();
        lemma_split_blocks_side(blocks.drop_last(), skip);
        lemma_side_add(
            split_blocks(blocks.drop_last()),
            tag_lines(last.0, text_lines(last.1)),
            skip,
        );
        lemma_side_tag_lines(last.0, text_lines(last.1), skip);
        if last.0 == skip {
            assert(side(split_blocks(blocks.drop_last()), skip).add(Seq::empty()) == side(
                split_blocks(blocks.drop_last()),
                skip,
            ));
        } else {
            assert(side(blocks, skip).drop_last() == side(blocks.drop_last(), skip));
            assert(side(blocks, skip).last() == last.1);
        }
    }
}

/// Where the blocks of one side are the line tokens of a text that holds no
/// bare carriage return, the entries of that side of the diff model are the
/// physical lines of the text, in order.
pub proof fn lemma_model_reconstructs(blocks: Seq<Tagged>, text: Seq<char>, skip: ChangeTag)
    requires
        side(blocks, skip) == line_tokens(text),
        !has_bare_cr(text),
    ensures
        side(split_blocks(blocks), skip) == text_lines(text),
{
    lemma_split_blocks_side(blocks, skip);
    lemma_tokens_lines(text);
}

/// Whether every entry holds one physical line: no text with a line feed.
pub open spec fn single_lines(entries: Seq<Tagged>) -> bool {
    forall|i: int| 0 <= i < entries.len() ==> no_newline(#[trigger] entries[i].1)
}

/// Every entry of a diff model holds one physical line.
pub proof fn lemma_split_blocks_single_lines(blocks: Seq<Tagged>)
    ensures
        single_lines(split_blocks(blocks)),
    decreases blocks.len(),
{
    if blocks.len() > 0 {
        let before = split_blocks(blocks.drop_last());
        let lines = text_lines(blocks.last().1);
        lemma_split_blocks_single_lines(blocks.drop_last());
        lemma_lines_hold_no_newline(blocks.last().1);
        assert forall|i: int| 0 <= i < split_blocks(blocks).len() implies no_newline(
            #[trigger] split_blocks(blocks)[i].1,
        ) by {
            if i < before.len() {
                assert(split_blocks(blocks)[i] == before[i]);
            } else {
                assert(split_blocks(blocks)[i].1 == lines[i - before.len()]);
            }
        }
    }
}

/// Cuts every block into its physical lines and lists them in order, one
/// entry per line under the block's tag.
pub fn flatten_changes(blocks: &Vec<ChangeBlock>) -> (lines: Vec<DiffLine>)
    ensures
        model(lines@) == split_blocks(blocks_view(blocks@)),
        single_lines(model(lines@)),
{
    proof {
        lemma_split_blocks_single_lines(blocks_view(blocks@));
    }
    let mut lines: Vec<DiffLine> = Vec::new();
    let mut i: usize = 0;
    while i < blocks.len()
        invariant
            i <= blocks.len(),
            model(lines@) == split_blocks(blocks_view(blocks@).take(i as int)),
        decreases blocks.len() - i,
    {
        let tag = blocks[i].tag;
        let pieces = split_lines(blocks[i].text.as_str());
        let ghost before = model(lines@);
        let mut j: usize = 0;
        while j < pieces.len()
            invariant
                j <= pieces.len(),
                model(lines@) == before.add(tag_lines(tag, views(pieces@).take(j as int))),
            decreases pieces.len() - j,
        {
            let content = pieces[j].clone();
            let ghost prev = lines@;
            lines.push(DiffLine { tag, content });
            proof {
                assert(model(lines@) == model(prev).push((tag, pieces@[j as int]@)));
                assert(views(pieces@).take(j + 1) == views(pieces@).take(j as int).push(
                    pieces@[j as int]@,
                ));
                assert(tag_lines(tag, views(pieces@).take(j + 1)) == tag_lines(
                    tag,
                    views(pieces@).take(j as int),
                ).push((tag, pieces@[j as int]@)));
            }
            j += 1;
        }
        proof {
            let all = blocks_view(blocks@);
            assert(views(pieces@).take(pieces.len() as int) == views(pieces@));
            assert(all.take(i + 1).drop_last() == all.take(i as int));
            assert(all.take(i + 1).last() == (tag, blocks@[i as int].text@));
        }
        i += 1;
    }
    proof {
        assert(blocks_view(blocks@).take(blocks.len() as int) == blocks_view(blocks@));
    }
    lines
}

/// Builds the diff model of two texts: the line differ's blocks, one entry per
/// physical line.
pub fn generate_diff(source_content: &str, target_content: &str) -> (lines: Vec<DiffLine>)
    ensures
        model(lines@) == diff_model(source_content@, target_content@),
        single_lines(model(lines@)),
        !has_bare_cr(source_content@) ==> side(model(lines@), ChangeTag::Insert) == text_lines(
            source_content@,
        ),
        !has_bare_cr(target_content@) ==> side(model(lines@), ChangeTag::Delete) == text_lines(
            target_content@,
        ),
{
    let blocks = line_changes(source_content, target_content);
    proof {
        if !has_bare_cr(source_content@) {
            lemma_model_reconstructs(blocks_view(blocks@), source_content@, ChangeTag::Insert);
        }
        if !has_bare_cr(target_content@) {
            lemma_model_reconstructs(blocks_view(blocks@), target_content@, ChangeTag::Delete);
        }
    }
    flatten_changes(&blocks)
}

/// The character that marks an entry of this tag in a patch.
pub open spec fn prefix_of(tag: ChangeTag) -> char {
    match tag {
        ChangeTag::Equal => ' ',
        ChangeTag::Delete => '-',
        ChangeTag::Insert => '+',
    }
}

/// One body line of a patch: the tag's mark, the entry's text, a line feed.
pub open spec fn patch_line(entry: Tagged) -> Seq<char> {
    seq![prefix_of(entry.0)].add(entry.1).push('\n')
}

/// The body lines of the given entries, one after the other.
pub open spec fn patch_body(entries: Seq<Tagged>) -> Seq<char>
    decreases entries.len(),
{
    if entries.len() == 0 {
        Seq::empty()
    } else {
        patch_body(entries.drop_last()).add(patch_line(entries.last()))
    }
}

/// The two header lines of a patch: `--- ` with the source path and `+++ `
/// with the target path.
pub open spec fn patch_header(source_file: Seq<char>, target_file: Seq<char>) -> Seq<char> {
    seq!['-', '-', '-', ' '].add(source_file).push('\n').add(seq!['+', '+', '+', ' ']).add(
        target_file,
    ).push('\n')
}

/// `x` brought into the interval from `low` to `high`.
pub open spec fn clamp(x: int, low: int, high: int) -> int {
    if x < low {
        low
    } else if x > high {
        high
    } else {
        x
    }
}

/// A range of indices as a pair of integers.
pub open spec fn range_view(range: Option<(usize, usize)>) -> Option<(int, int)> {
    match range {
        Some((start, end)) => Some((start as int, end as int)),
        None => None,
    }
}

/// The entries that a range selects: all of them without a range, else those
/// whose index lies between the two bounds, both included. A range whose
/// bounds are out of order, or beyond the last entry, selects nothing.
pub open spec fn selected(entries: Seq<Tagged>, range: Option<(int, int)>) -> Seq<Tagged> {
    match range {
        None => entries,
        Some((start, end)) => {
            let from = clamp(start, 0, entries.len() as int);
            let to = clamp(end + 1, from, entries.len() as int);
            entries.subrange(from, to)
        },
    }
}

/// The unified-diff text of the selected entries.
pub open spec fn patch_text(
    source_file: Seq<char>,
    target_file: Seq<char>,
    entries: Seq<Tagged>,
    range: Option<(int, int)>,
) -> Seq<char> {
    patch_header(source_file, target_file).add(patch_body(selected(entries, range)))
}

/// A body line of a patch as a reader of the patch meets it: the tag's mark
/// and the entry's text.
pub open spec fn shown_line(entry: Tagged) -> Seq<char> {
    strip_cr(seq![prefix_of(entry.0)].add(entry.1))
}

/// The body lines of a patch as a reader meets them.
pub open spec fn shown_lines(entries: Seq<Tagged>) -> Seq<Seq<char>> {
    Seq::new(entries.len(), |i: int| shown_line(entries[i]))
}

/// The two header lines of a patch as a reader meets them.
pub open spec fn header_lines(source_file: Seq<char>, target_file: Seq<char>) -> Seq<Seq<char>> {
    seq![
        strip_cr(seq!['-', '-', '-', ' '].add(source_file)),
        strip_cr(seq!['+', '+', '+', ' '].add(target_file)),
    ]
}

/// The body of a patch is empty or ends in a line feed.
pub proof fn lemma_patch_body_ends_lines(entries: Seq<Tagged>)
    ensures
        patch_body(entries).len() == 0 || patch_body(entries).last() == '\n',
{
}

/// The physical lines of a patch body are the body lines of its entries, one
/// for each entry and in their order.
pub proof fn lemma_patch_body_lines(entries: Seq<Tagged>)
    requires
        single_lines(entries),
    ensures
        text_lines(patch_body(entries)) == shown_lines(entries),
    decreases entries.len(),
{
    if entries.len() > 0 {
        let before = entries.drop_last();
        let last = entries.last();
        let line = seq![prefix_of(last.0)].add(last.1);
        assert(single_lines(before)) by {
            assert forall|i: int| 0 <= i < before.len() implies no_newline(
                #[trigger] before[i].1,
            ) by {
                assert(before[i] == entries[i]);
            }
        }
        lemma_patch_body_lines(before);
        lemma_patch_body_ends_lines(before);
        lemma_text_lines_add(patch_body(before), patch_line(last));
        assert(no_newline(line)) by {
            assert(no_newline(entries[entries.len() - 1].1));
        }
        lemma_first_line(line, Seq::empty());
        assert(line.push('\n').add(Seq::empty()) == patch_line(last));
        assert(seq![strip_cr(line)].add(text_lines(Seq::empty())) == seq![shown_line(last)]);
        assert(shown_lines(before).add(seq![shown_line(last)]) == shown_lines(entries));
    } else {
        assert(shown_lines(entries) == Seq::<Seq<char>>::empty());
    }
}

/// A patch read line by line: the two header lines, then one line for each
/// selected entry, in the entries' order.
pub proof fn lemma_patch_lines(
    source_file: Seq<char>,
    target_file: Seq<char>,
    entries: Seq<Tagged>,
    range: Option<(int, int)>,
)
    requires
        no_newline(source_file),
        no_newline(target_file),
        single_lines(entries),
    ensures
        text_lines(patch_text(source_file, target_file, entries, range)) == header_lines(
            source_file,
            target_file,
        ).add(shown_lines(selected(entries, range))),
{
    let first = seq!['-', '-', '-', ' '].add(source_file);
    let second = seq!['+', '+', '+', ' '].add(target_file);
    let chosen = selected(entries, range);
    let body = patch_body(chosen);
    assert(single_lines(chosen)) by {
        assert forall|i: int| 0 <= i < chosen.len() implies no_newline(#[trigger] chosen[i].1) by {
            match range {
                None => {},
                Some((start, end)) => {
                    let from = clamp(start, 0, entries.len() as int);
                    assert(chosen[i] == entries[from + i]);
                },
            }
        }
    }
    lemma_patch_body_lines(chosen);
    assert(patch_text(source_file, target_file, entries, range) == first.push('\n').add(
        second.push('\n').add(body),
    ));
    lemma_first_line(first, second.push('\n').add(body));
    lemma_first_line(second, body);
    assert(seq![strip_cr(first)].add(seq![strip_cr(second)].add(shown_lines(chosen)))
        == header_lines(source_file, target_file).add(shown_lines(chosen)));
}

/// The patch of a whole model starts with the two header lines and goes on
/// with exactly one body line for each entry of the model.
pub proof fn lemma_whole_patch(source_file: Seq<char>, target_file: Seq<char>, entries: Seq<Tagged>)
    requires
        no_newline(source_file),
        no_newline(target_file),
        single_lines(entries),
    ensures
        patch_header(source_file, target_file).is_prefix_of(
            patch_text(source_file, target_file, entries, None),
        ),
        text_lines(patch_text(source_file, target_file, entries, None)).len() == 2 + entries.len(),
        forall|i: int|
            0 <= i < entries.len() ==> text_lines(
                patch_text(source_file, target_file, entries, None),
            )[2 + i] == shown_line(entries[i]),
{
    lemma_patch_lines(source_file, target_file, entries, None);
    let patch = patch_text(source_file, target_file, entries, None);
    let header = patch_header(source_file, target_file);
    assert(patch.subrange(0, header.len() as int) == header);
}

/// The patch of the range from an entry to itself holds, after the header,
/// the body line of that entry and nothing else.
pub proof fn lemma_single_entry_patch(
    source_file: Seq<char>,
    target_file: Seq<char>,
    entries: Seq<Tagged>,
    index: int,
)
    requires
        0 <= index < entries.len(),
    ensures
        patch_text(source_file, target_file, entries, Some((index, index))) == patch_header(
            source_file,
            target_file,
        ).add(patch_line(entries[index])),
{
    let chosen = selected(entries, Some((index, index)));
    assert(chosen == seq![entries[index]]);
    assert(chosen.drop_last() == Seq::<Tagged>::empty());
    assert(patch_body(chosen.drop_last()) == Seq::<char>::empty());
    assert(patch_body(chosen) == patch_line(entries[index]));
}

/// A range that selects no entry gives a patch of the two header lines.
pub proof fn lemma_empty_selection_patch(
    source_file: Seq<char>,
    target_file: Seq<char>,
    entries: Seq<Tagged>,
    start: int,
    end: int,
)
    requires
        end < start || start >= entries.len() || end < 0,
    ensures
        patch_text(source_file, target_file, entries, Some((start, end))) == patch_header(
            source_file,
            target_file,
        ),
{
    let chosen = selected(entries, Some((start, end)));
    assert(chosen.len() == 0);
    assert(patch_header(source_file, target_file).add(Seq::empty()) == patch_header(
        source_file,
        target_file,
    ));
}

/// The mark of a tag.
pub fn prefix(tag: ChangeTag) -> (mark: char)
    ensures
        mark == prefix_of(tag),
{
    match tag {
        ChangeTag::Equal => ' ',
        ChangeTag::Delete => '-',
        ChangeTag::Insert => '+',
    }
}

/// Renders the entries that `line_range` selects as a unified-diff patch:
/// two header lines, then one line per selected entry.
pub fn generate_patch(
    source_file: &str,
    target_file: &str,
    diff_lines: &[DiffLine],
    line_range: Option<(usize, usize)>,
) -> (patch: String)
    ensures
        patch@ == patch_text(
            source_file@,
            target_file@,
            model(diff_lines@),
            range_view(line_range),
        ),
{
    let mut patch = String::new();
    proof {
        reveal_strlit("--- ");
        reveal_strlit("+++ ");
    }
    patch.append("--- ");
    patch.append(source_file);
    push_char(&mut patch, '\n');
    patch.append("+++ ");
    patch.append(target_file);
    push_char(&mut patch, '\n');
    assert(patch@ == patch_header(source_file@, target_file@));
    let n = diff_lines.len();
    let (from, to): (usize, usize) = match line_range {
        None => (0, n),
        Some((start, end)) => if start <= end && start < n {
            (start, if end < n { end + 1 } else { n })
        } else {
            (0, 0)
        },
    };
    let ghost entries = model(diff_lines@);
    let ghost chosen = selected(entries, range_view(line_range));
    assert(chosen == entries.subrange(from as int, to as int));
    let mut i: usize = from;
    while i < to
        invariant
            from <= i <= to <= n,
            n == diff_lines.len(),
            entries == model(diff_lines@),
            patch@ == patch_header(source_file@, target_file@).add(
                patch_body(entries.subrange(from as int, i as int)),
            ),
        decreases to - i,
    {
        let ghost before = patch@;
        push_char(&mut patch, prefix(diff_lines[i].tag));
        patch.append(diff_lines[i].content.as_str());
        push_char(&mut patch, '\n');
        proof {
            let upto = entries.subrange(from as int, i + 1);
            assert(upto.drop_last() == entries.subrange(from as int, i as int));
            assert(upto.last() == diff_lines@[i as int]@);
            assert(patch@ == before.add(patch_line(diff_lines@[i as int]@)));
        }
        i += 1;
    }
    patch
}

/// The name of the file that a patch exported at `timestamp` goes to.
pub open spec fn export_name(timestamp: nat) -> Seq<char> {
    "diff_"@.add(decimal(timestamp)).add(".patch"@)
}

/// Names the file for a patch exported at `timestamp`, a count of
/// nanoseconds: `diff_`, the count in decimal digits, `.patch`.
pub fn export_filename(timestamp: u128) -> (name: String)
    ensures
        name@ == export_name(timestamp as nat),
{
    let mut name = String::from_str("diff_");
    push_decimal(&mut name, timestamp);
    name.append(".patch");
    name
}

/// Patches exported at different times go to files of different names.
pub proof fn lemma_export_names_differ(first: nat, second: nat)
    requires
        first != second,
    ensures
        export_name(first) != export_name(second),
{
    let head = "diff_"@;
    let tail = ".patch"@;
    let a = decimal(first);
    let b = decimal(second);
    if export_name(first) == export_name(second) {
        assert(a.len() == b.len()) by {
            assert(export_name(first).len() == head.len() + a.len() + tail.len());
            assert(export_name(second).len() == head.len() + b.len() + tail.len());
        }
        assert(a == b) by {
            let from = head.len() as int;
            assert(a == export_name(first).subrange(from, from + a.len()));
            assert(b == export_name(second).subrange(from, from + b.len()));
        }
        lemma_decimal_injective(first, second);
    }
}

/// What is said of a path that does not exist.
pub open spec fn missing_message(file_type: Seq<char>, path: Seq<char>) -> Seq<char> {
    file_type.add(" file '"@).add(path).add("' does not exist"@)
}

/// What is said of a path that is no regular file.
pub open spec fn not_a_file_message(file_type: Seq<char>, path: Seq<char>) -> Seq<char> {
    file_type.add(" path '"@).add(path).add("' is not a file"@)
}

/// Judges a path given on the command line from what was found on disk:
/// `exists` says whether anything is there, `is_file` whether it is a regular
/// file. `file_type` names the role of the path in the message.
pub fn validate_file(
    path: &str,
    file_type: &str,
    exists: bool,
    is_file: bool,
) -> (result: Result<(), String>)
    ensures
        result is Ok <==> exists && is_file,
        !exists ==> (result matches Err(message) && message@ == missing_message(
            file_type@,
            path@,
        )),
        exists && !is_file ==> (result matches Err(message) && message@ == not_a_file_message(
            file_type@,
            path@,
        )),
{
    if !exists {
        let mut message = String::from_str(file_type);
        message.append(" file '");
        message.append(path);
        message.append("' does not exist");
        return Err(message);
    }
    if !is_file {
        let mut message = String::from_str(file_type);
        message.append(" path '");
        message.append(path);
        message.append("' is not a file");
        return Err(message);
    }
    Ok(())
}

/// What is reported when the clipboard refused the patch.
pub open spec fn clipboard_failure_text(detail: Seq<char>) -> Seq<char> {
    "Failed to copy to clipboard: "@.add(detail)
}

/// What is reported when the clock gave no time to name the file by.
pub open spec fn timestamp_failure_text(detail: Seq<char>) -> Seq<char> {
    "Failed to get timestamp: "@.add(detail)
}

/// What is reported when the patch file could not be written.
pub open spec fn write_failure_text(detail: Seq<char>) -> Seq<char> {
    "Failed to write to file: "@.add(detail)
}

/// The report of a clipboard that refused the patch for the reason `detail`.
pub fn clipboard_failure(detail: &str) -> (message: String)
    ensures
        message@ == clipboard_failure_text(detail@),
{
    let mut message = String::from_str("Failed to copy to clipboard: ");
    message.append(detail);
    message
}

/// The report of a clock that gave no time, for the reason `detail`.
pub fn timestamp_failure(detail: &str) -> (message: String)
    ensures
        message@ == timestamp_failure_text(detail@),
{
    let mut message = String::from_str("Failed to get timestamp: ");
    message.append(detail);
    message
}

/// The report of a patch file that could not be written, for the reason
/// `detail`.
pub fn write_failure(detail: &str) -> (message: String)
    ensures
        message@ == write_failure_text(detail@),
{
    let mut message = String::from_str("Failed to write to file: ");
    message.append(detail);
    message
}

} // verus!
