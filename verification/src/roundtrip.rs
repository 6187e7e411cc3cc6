//! Reading back what was written: a log that came out of the reader is
//! written as a text that reads as the same log.

use crate::ids::uuid_prints_well;
use crate::protocol::Block;
use crate::protocol::Body;
use crate::protocol::Header;
use crate::protocol::TurnKind;
use crate::protocol::Written;
use crate::protocol::assemble;
use crate::protocol::attach_line;
use crate::protocol::block_start;
use crate::protocol::block_step;
use crate::protocol::block_text;
use crate::protocol::body_close;
use crate::protocol::body_feed;
use crate::protocol::body_follows;
use crate::protocol::body_read;
use crate::protocol::body_scan;
use crate::protocol::body_start;
use crate::protocol::body_step;
use crate::protocol::format_spec;
use crate::protocol::header_end;
use crate::protocol::header_end_from;
use crate::protocol::header_scan;
use crate::protocol::header_start;
use crate::protocol::header_step;
use crate::protocol::header_text;
use crate::protocol::parse_spec;
use crate::protocol::split_at_only_colon;
use crate::protocol::tag_attach;
use crate::protocol::tag_created_at;
use crate::protocol::tag_error;
use crate::protocol::tag_mark;
use crate::protocol::tag_model;
use crate::protocol::tag_response;
use crate::protocol::tag_status;
use crate::protocol::tag_system;
use crate::protocol::tag_title;
use crate::protocol::tag_user;
use crate::protocol::tag_uuid;
use crate::protocol::turn_of;
use crate::protocol::value_after;
use crate::protocol::write_all;
use crate::protocol::write_step;
use crate::text::first_colon;
use crate::text::has_prefix;
use crate::text::is_blank;
use crate::text::is_line;
use crate::text::is_space;
use crate::text::join_lines;
use crate::text::lemma_lines_of_shape;
use crate::text::lines_of;
use crate::text::trim;
use crate::text::trim_end;
use crate::text::trim_start;
use crate::text_laws::lemma_join_lines_of;
use crate::text_laws::lemma_first_colon_bound;
use crate::text_laws::lemma_first_colon_skip;
use crate::text_laws::lemma_first_line_start;
use crate::text_laws::lemma_last_line_end;
use crate::text_laws::lemma_lines_after_line;
use crate::text_laws::lemma_lines_of_trim_end;
use crate::text_laws::lemma_lines_blank_between;
use crate::text_laws::lemma_trim_between_blanks;
use crate::text_laws::lemma_lines_joined;
use crate::text_laws::lemma_lines_of_line;
use crate::text_laws::lemma_lines_push_newline;
use crate::text_laws::lemma_prefix_clash;
use crate::text_laws::lemma_prefix_of_concat;
use crate::text_laws::lemma_prefix_of_prefix;
use crate::text_laws::lemma_trim_end_blank;
use crate::text_laws::lemma_trim_end_shape;
use crate::text_laws::lemma_trim_of_line;
use crate::text_laws::lemma_trim_of_trimmed;
use crate::text_laws::lemma_trim_shape;
use crate::text_laws::lemma_trim_start_blank;
use crate::text_laws::lemma_trim_start_shape;
use crate::time::Timestamp;
use crate::types::ChatLogView;
use crate::types::InteractionView;
use vstd::prelude::*;

verus! {

/// A header value as the reader leaves it: one line without white space at
/// either end.
pub open spec fn field_ok(v: Seq<char>) -> bool {
    is_line(v) && trim(v) == v
}

/// Whether `v` holds no colon.
pub open spec fn no_colon(v: Seq<char>) -> bool {
    forall|i: int| 0 <= i < v.len() ==> #[trigger] v[i] != ':'
}

/// A content as the reader leaves it: no white space at its end, none at its
/// start unless it starts with a line feed, and no empty line after the
/// first.
pub open spec fn text_ok(c: Seq<char>) -> bool {
    &&& trim_end(c) == c
    &&& trim_start(lines_of(c)[0]) == lines_of(c)[0]
    &&& forall|i: int| 1 <= i < lines_of(c).len() ==> (#[trigger] lines_of(c)[i]).len() > 0
}

/// A system prompt as the reader leaves it: a content none of whose lines
/// after the first is a tag line.
pub open spec fn prompt_ok(p: Seq<char>) -> bool {
    &&& text_ok(p)
    &&& forall|i: int|
        1 <= i < lines_of(p).len() ==> !has_prefix(#[trigger] lines_of(p)[i], tag_mark())
}

/// An interaction as the reader leaves it.
pub open spec fn item_ok(item: InteractionView) -> bool {
    match item {
        InteractionView::User { content, .. } => text_ok(content),
        InteractionView::Ai { content, .. } => text_ok(content),
        InteractionView::Error { reason, .. } => text_ok(reason),
        InteractionView::Attachment { filename, mime_type } => field_ok(filename) && field_ok(
            mime_type,
        ) && no_colon(filename) && no_colon(mime_type),
    }
}

/// A log as the reader leaves it: every value in the shape that the reader
/// gives it, a status always, and no attachment without a turn after it.
pub open spec fn canonical(log: ChatLogView) -> bool {
    &&& field_ok(log.title)
    &&& log.status matches Some(status) && field_ok(status)
    &&& log.model matches Some(model) ==> field_ok(model)
    &&& log.system_prompt matches Some(prompt) ==> prompt_ok(prompt)
    &&& forall|i: int| 0 <= i < log.interactions.len() ==> item_ok(#[trigger] log.interactions[i])
    &&& log.interactions.len() > 0 ==> !(log.interactions.last() is Attachment)
}

/// The time of a turn, if the interaction is one.
pub open spec fn time_of(item: InteractionView) -> Option<Timestamp> {
    match item {
        InteractionView::User { created_at, .. } => Some(created_at),
        InteractionView::Ai { created_at, .. } => Some(created_at),
        InteractionView::Error { created_at, .. } => Some(created_at),
        InteractionView::Attachment { .. } => None,
    }
}

/// Whether every time of a log prints as a text that reads back as that
/// time. It does for the times that RFC 3339 can express in UTC, those of
/// the years 0000 to 9999.
pub open spec fn times_read_back(log: ChatLogView) -> bool {
    forall|i: int|
        0 <= i < log.interactions.len() ==> (time_of(#[trigger] log.interactions[i]) matches Some(
            t,
        ) ==> t.reads_back())
}

/// Whether every time of a log prints without white space.
pub open spec fn times_print_clean(items: Seq<InteractionView>) -> bool {
    forall|i: int|
        0 <= i < items.len() ==> (time_of(#[trigger] items[i]) matches Some(t) ==> t.prints_clean())
}

/// Whether the identifier and the times of a log print as texts that read
/// back as themselves.
pub open spec fn prints_well(log: ChatLogView) -> bool {
    &&& uuid_prints_well(log.uuid.value)
    &&& forall|i: int|
        0 <= i < log.interactions.len() ==> (time_of(#[trigger] log.interactions[i]) matches Some(
            t,
        ) ==> t.prints_clean() && t.reads_back())
}

/// What the tags are made of.
pub proof fn lemma_tags()
    ensures
        tag_mark().len() == 3,
        tag_mark()[0] == ':' && tag_mark()[1] == ':' && tag_mark()[2] == '>',
        has_prefix(tag_uuid(), tag_mark()) && tag_uuid().len() == 8 && tag_uuid()[3] == 'u',
        has_prefix(tag_title(), tag_mark()) && tag_title().len() == 9 && tag_title()[3] == 't',
        has_prefix(tag_model(), tag_mark()) && tag_model().len() == 9 && tag_model()[3] == 'm',
        has_prefix(tag_status(), tag_mark()) && tag_status().len() == 10 && tag_status()[3] == 's'
            && tag_status()[4] == 't',
        has_prefix(tag_system(), tag_mark()) && tag_system().len() == 10 && tag_system()[3] == 's'
            && tag_system()[4] == 'y',
        has_prefix(tag_created_at(), tag_mark()) && tag_created_at().len() == 14
            && tag_created_at()[3] == 'c',
        has_prefix(tag_attach(), tag_mark()) && tag_attach().len() == 10 && tag_attach()[3] == 'a',
        has_prefix(tag_user(), tag_mark()) && tag_user().len() == 8 && tag_user()[3] == 'u',
        has_prefix(tag_response(), tag_mark()) && tag_response().len() == 12 && tag_response()[3]
            == 'r',
        has_prefix(tag_error(), tag_mark()) && tag_error().len() == 9 && tag_error()[3] == 'e',
        is_line(tag_uuid()) && is_line(tag_title()) && is_line(tag_model()) && is_line(
            tag_status(),
        ) && is_line(tag_system()) && is_line(tag_created_at()) && is_line(tag_attach())
            && is_line(tag_user()) && is_line(tag_response()) && is_line(tag_error()),
        tag_status().last() == ':' && tag_model().last() == ':' && tag_system().last() == ':',
        " "@.len() == 1 && " "@[0] == ' ',
        "\n"@.len() == 1 && "\n"@[0] == '\n',
        "\n\n"@.len() == 2 && "\n\n"@[0] == '\n' && "\n\n"@[1] == '\n',
        " : "@.len() == 3 && " : "@[0] == ' ' && " : "@[1] == ':' && " : "@[2] == ' ',
{
    reveal_strlit("::>");
    reveal_strlit("::>uuid:");
    reveal_strlit("::>title:");
    reveal_strlit("::>model:");
    reveal_strlit("::>status:");
    reveal_strlit("::>system:");
    reveal_strlit("::>created_at:");
    reveal_strlit("::>attach:");
    reveal_strlit("::>user:");
    reveal_strlit("::>response:");
    reveal_strlit("::>error:");
    reveal_strlit(" ");
    reveal_strlit("\n");
    reveal_strlit("\n\n");
    reveal_strlit(" : ");
    assert(tag_uuid().subrange(0, 3) =~= tag_mark());
    assert(tag_title().subrange(0, 3) =~= tag_mark());
    assert(tag_model().subrange(0, 3) =~= tag_mark());
    assert(tag_status().subrange(0, 3) =~= tag_mark());
    assert(tag_system().subrange(0, 3) =~= tag_mark());
    assert(tag_created_at().subrange(0, 3) =~= tag_mark());
    assert(tag_attach().subrange(0, 3) =~= tag_mark());
    assert(tag_user().subrange(0, 3) =~= tag_mark());
    assert(tag_response().subrange(0, 3) =~= tag_mark());
    assert(tag_error().subrange(0, 3) =~= tag_mark());
}

/// Reading header lines one run after another is reading them all.
pub proof fn lemma_header_scan_concat(h: Header, a: Seq<Seq<char>>, b: Seq<Seq<char>>)
    ensures
        header_scan(h, a + b) == header_scan(header_scan(h, a), b),
    decreases b.len(),
{
    if b.len() == 0 {
        assert(a + b =~= a);
    } else {
        assert((a + b).drop_last() =~= a + b.drop_last());
        assert((a + b).last() == b.last());
        lemma_header_scan_concat(h, a, b.drop_last());
    }
}

/// Reading one header line.
pub proof fn lemma_header_scan_one(h: Header, line: Seq<char>)
    ensures
        header_scan(h, seq![line]) == header_step(h, line),
{
    assert(seq![line].drop_last() =~= Seq::<Seq<char>>::empty());
    assert(header_scan(h, seq![line].drop_last()) == h);
}

/// Reading body lines one run after another is reading them all.
pub proof fn lemma_body_scan_concat(s: Body, a: Seq<Seq<char>>, b: Seq<Seq<char>>, now: Timestamp)
    ensures
        body_scan(s, a + b, now) == body_scan(body_scan(s, a, now), b, now),
    decreases b.len(),
{
    if b.len() == 0 {
        assert(a + b =~= a);
    } else {
        assert((a + b).drop_last() =~= a + b.drop_last());
        assert((a + b).last() == b.last());
        lemma_body_scan_concat(s, a, b.drop_last(), now);
    }
}

/// Reading one body line.
pub proof fn lemma_body_scan_one(s: Body, line: Seq<char>, now: Timestamp)
    ensures
        body_scan(s, seq![line], now) == body_step(s, line, now),
{
    assert(seq![line].drop_last() =~= Seq::<Seq<char>>::empty());
    assert(body_scan(s, seq![line].drop_last(), now) == s);
}

/// A written field line: the tag, a space, the value.
pub open spec fn field_line(tag: Seq<char>, value: Seq<char>) -> Seq<char> {
    tag + " "@ + value
}

/// What a written field line looks like to the reader: it is a tag line that
/// begins with its tag, and what follows the tag trims to the value.
pub proof fn lemma_field_line(tag: Seq<char>, value: Seq<char>)
    requires
        has_prefix(tag, tag_mark()),
    ensures
        has_prefix(field_line(tag, value), tag_mark()),
        has_prefix(field_line(tag, value), tag),
        value_after(field_line(tag, value), tag) == " "@ + value,
        field_line(tag, value).len() > 0,
        trim(value) == value ==> trim(value_after(field_line(tag, value), tag)) == value,
        trim_start(value) == value ==> trim_start(value_after(field_line(tag, value), tag))
            == value,
        is_line(tag) && is_line(value) ==> is_line(field_line(tag, value)),
{
    lemma_tags();
    let line = field_line(tag, value);
    assert(line =~= tag + (" "@ + value));
    lemma_prefix_of_concat(tag, " "@ + value);
    lemma_prefix_of_prefix(line, tag, tag_mark());
    assert(is_blank(" "@));
    lemma_trim_start_blank(" "@, value);
    if trim(value) == value {
        lemma_trim_of_trimmed(value);
    }
}

/// The header lines before the system prompt: identifier, title, then
/// status and model where the log has them.
pub open spec fn fixed_lines(log: ChatLogView) -> Seq<Seq<char>> {
    seq![field_line(tag_uuid(), log.uuid.text()), field_line(tag_title(), log.title)] + (
    match log.status {
        Some(status) => seq![field_line(tag_status(), status)],
        None => Seq::empty(),
    }) + (match log.model {
        Some(model) => seq![field_line(tag_model(), model)],
        None => Seq::empty(),
    })
}

/// The written system prompt, or nothing.
pub open spec fn prompt_text(log: ChatLogView) -> Seq<char> {
    match log.system_prompt {
        Some(prompt) => field_line(tag_system(), trim_end(prompt)),
        None => Seq::empty(),
    }
}

/// The lines of the written header.
pub open spec fn header_lines(log: ChatLogView) -> Seq<Seq<char>> {
    fixed_lines(log) + lines_of(prompt_text(log))
}

/// The written header, line by line.
pub proof fn lemma_header_lines(log: ChatLogView)
    requires
        canonical(log),
        uuid_prints_well(log.uuid.value),
    ensures
        lines_of(header_text(log)) == header_lines(log),
{
    lemma_tags();
    crate::ids::lemma_uuid_text_is_clean(log.uuid.value);
    let nl = seq!['\n'];
    assert("\n"@ =~= nl);
    let l1 = field_line(tag_uuid(), log.uuid.text());
    let l2 = field_line(tag_title(), log.title);
    let status = log.status->Some_0;
    let l3 = field_line(tag_status(), status);
    let p = prompt_text(log);
    lemma_field_line(tag_uuid(), log.uuid.text());
    lemma_field_line(tag_title(), log.title);
    lemma_field_line(tag_status(), status);
    lemma_lines_of_line(l1);
    lemma_lines_of_line(l2);
    lemma_lines_of_line(l3);
    match log.model {
        Some(model) => {
            let l4 = field_line(tag_model(), model);
            lemma_field_line(tag_model(), model);
            lemma_lines_of_line(l4);
            lemma_lines_joined(l4, p);
            let t4 = l4 + nl + p;
            lemma_lines_joined(l3, t4);
            let t3 = l3 + nl + t4;
            lemma_lines_joined(l2, t3);
            let t2 = l2 + nl + t3;
            lemma_lines_joined(l1, t2);
            assert(header_text(log) =~= l1 + nl + t2);
            assert(header_lines(log) =~= seq![l1] + (seq![l2] + (seq![l3] + (seq![l4] + lines_of(
                p,
            )))));
        },
        None => {
            lemma_lines_joined(l3, p);
            let t3 = l3 + nl + p;
            lemma_lines_joined(l2, t3);
            let t2 = l2 + nl + t3;
            lemma_lines_joined(l1, t2);
            assert(header_text(log) =~= l1 + nl + t2);
            assert(header_lines(log) =~= seq![l1] + (seq![l2] + (seq![l3] + lines_of(p))));
        },
    }
}

/// Reading the continuation lines of a system prompt appends each to it.
pub proof fn lemma_scan_prompt(h: Header, first: Seq<char>, rest: Seq<Seq<char>>)
    requires
        h.in_prompt,
        h.prompt == Some(first),
        forall|i: int|
            0 <= i < rest.len() ==> (#[trigger] rest[i]).len() > 0 && !has_prefix(
                rest[i],
                tag_mark(),
            ),
    ensures
        header_scan(h, rest) == (Header { prompt: Some(join_lines(seq![first] + rest)), ..h }),
    decreases rest.len(),
{
    if rest.len() == 0 {
        assert(seq![first] + rest =~= seq![first]);
    } else {
        lemma_scan_prompt(h, first, rest.drop_last());
        assert((seq![first] + rest).drop_last() =~= seq![first] + rest.drop_last());
        assert((seq![first] + rest).last() == rest.last());
    }
}

/// What reading the written header gives: the fields of the log.
pub open spec fn header_read(h: Header, log: ChatLogView) -> bool {
    &&& h.uuid == Some(log.uuid)
    &&& !h.bad_uuid
    &&& h.title == log.title
    &&& h.model == log.model
    &&& h.status == log.status
    &&& h.prompt == log.system_prompt
}

/// Reading the lines of the written header gives the fields of the log.
pub proof fn lemma_header_scan(log: ChatLogView)
    requires
        canonical(log),
        uuid_prints_well(log.uuid.value),
    ensures
        header_read(header_scan(header_start(), header_lines(log)), log),
{
    lemma_tags();
    crate::ids::lemma_uuid_text_is_clean(log.uuid.value);
    let h0 = header_start();
    let l1 = field_line(tag_uuid(), log.uuid.text());
    let l2 = field_line(tag_title(), log.title);
    let status = log.status->Some_0;
    let l3 = field_line(tag_status(), status);
    lemma_field_line(tag_uuid(), log.uuid.text());
    lemma_field_line(tag_title(), log.title);
    lemma_field_line(tag_status(), status);
    let h1 = header_step(h0, l1);
    assert(h1.uuid == Some(log.uuid));
    lemma_prefix_clash(l2, tag_title(), tag_uuid(), 3);
    let h2 = header_step(h1, l2);
    lemma_prefix_clash(l3, tag_status(), tag_uuid(), 3);
    lemma_prefix_clash(l3, tag_status(), tag_title(), 3);
    lemma_prefix_clash(l3, tag_status(), tag_model(), 3);
    let h3 = header_step(h2, l3);
    lemma_header_scan_one(h0, l1);
    lemma_header_scan_one(h1, l2);
    lemma_header_scan_one(h2, l3);
    lemma_header_scan_concat(h0, seq![l1], seq![l2]);
    lemma_header_scan_concat(h0, seq![l1] + seq![l2], seq![l3]);
    let three = seq![l1] + seq![l2] + seq![l3];
    assert(header_scan(h0, three) == h3);
    let (fixed, h4) = match log.model {
        Some(model) => {
            let l4 = field_line(tag_model(), model);
            lemma_field_line(tag_model(), model);
            lemma_prefix_clash(l4, tag_model(), tag_uuid(), 3);
            lemma_prefix_clash(l4, tag_model(), tag_title(), 3);
            lemma_header_scan_one(h3, l4);
            lemma_header_scan_concat(h0, three, seq![l4]);
            (three + seq![l4], header_step(h3, l4))
        },
        None => (three, h3),
    };
    assert(fixed =~= fixed_lines(log));
    assert(header_scan(h0, fixed) == h4);
    assert(h4.uuid == Some(log.uuid) && !h4.bad_uuid && h4.title == log.title && h4.model
        == log.model && h4.status == log.status && h4.prompt is None);
    let tail = lines_of(prompt_text(log));
    lemma_header_scan_concat(h0, fixed, tail);
    match log.system_prompt {
        Some(prompt) => {
            assert(trim_end(prompt) == prompt);
            lemma_lines_of_shape(prompt);
            let first = lines_of(prompt)[0];
            let rest = lines_of(prompt).skip(1);
            let lead = field_line(tag_system(), Seq::empty());
            lemma_field_line(tag_system(), Seq::empty());
            assert(lead =~= tag_system() + " "@);
            assert(is_line(lead));
            assert(field_line(tag_system(), prompt) =~= lead + prompt);
            lemma_lines_after_line(lead, prompt);
            let l5 = field_line(tag_system(), first);
            assert(lead + first =~= l5);
            assert(tail == seq![l5] + rest);
            lemma_field_line(tag_system(), first);
            lemma_prefix_clash(l5, tag_system(), tag_uuid(), 3);
            lemma_prefix_clash(l5, tag_system(), tag_title(), 3);
            lemma_prefix_clash(l5, tag_system(), tag_model(), 3);
            lemma_prefix_clash(l5, tag_system(), tag_status(), 4);
            let h5 = header_step(h4, l5);
            assert(h5.prompt == Some(first) && h5.in_prompt);
            lemma_header_scan_one(h4, l5);
            lemma_header_scan_concat(h4, seq![l5], rest);
            lemma_scan_prompt(h5, first, rest);
            assert(seq![first] + rest =~= lines_of(prompt));
            lemma_join_lines_of(prompt);
        },
        None => {
            assert(prompt_text(log).len() == 0);
            assert(tail =~= seq![Seq::<char>::empty()]);
            lemma_header_scan_one(h4, Seq::<char>::empty());
        },
    }
}

/// Whether the interaction is a turn, not an attachment.
pub open spec fn is_turn(item: InteractionView) -> bool {
    !(item is Attachment)
}

/// The tag that a turn is written under.
pub open spec fn turn_tag(item: InteractionView) -> Seq<char> {
    match item {
        InteractionView::User { .. } => tag_user(),
        InteractionView::Ai { .. } => tag_response(),
        _ => tag_error(),
    }
}

/// The kind of a turn.
pub open spec fn turn_kind(item: InteractionView) -> TurnKind {
    match item {
        InteractionView::User { .. } => TurnKind::User,
        InteractionView::Ai { .. } => TurnKind::Ai,
        _ => TurnKind::Error,
    }
}

/// The content of a turn.
pub open spec fn turn_content(item: InteractionView) -> Seq<char> {
    match item {
        InteractionView::User { content, .. } => content,
        InteractionView::Ai { content, .. } => content,
        InteractionView::Error { reason, .. } => reason,
        InteractionView::Attachment { .. } => Seq::empty(),
    }
}

/// The time of a turn.
pub open spec fn turn_time(item: InteractionView) -> Timestamp {
    match item {
        InteractionView::User { created_at, .. } => created_at,
        InteractionView::Ai { created_at, .. } => created_at,
        InteractionView::Error { created_at, .. } => created_at,
        InteractionView::Attachment { .. } => arbitrary(),
    }
}

/// A written attachment line, without its line feed.
pub open spec fn attach_text(item: InteractionView) -> Seq<char> {
    match item {
        InteractionView::Attachment { filename, mime_type } => tag_attach() + " "@ + filename
            + " : "@ + mime_type,
        _ => Seq::empty(),
    }
}

/// The written lines of attachments.
pub open spec fn attach_lines(items: Seq<InteractionView>) -> Seq<Seq<char>> {
    items.map_values(|item: InteractionView| attach_text(item))
}

/// The written text of attachments that wait for their turn.
pub open spec fn pending_text(items: Seq<InteractionView>) -> Seq<char>
    decreases items.len(),
{
    if items.len() == 0 {
        Seq::empty()
    } else {
        pending_text(items.drop_last()) + attach_text(items.last()) + "\n"@
    }
}

/// Whether all are attachments as the reader leaves them.
pub open spec fn attachments_ok(items: Seq<InteractionView>) -> bool {
    forall|i: int| 0 <= i < items.len() ==> (#[trigger] items[i]) is Attachment && item_ok(items[i])
}

/// Whether the turn is as the reader leaves it and its time prints well.
pub open spec fn turn_ok(item: InteractionView) -> bool {
    &&& is_turn(item)
    &&& item_ok(item)
    &&& turn_time(item).prints_clean()
    &&& turn_time(item).reads_back()
}

/// The lines of a written block, without the blank line before it.
pub open spec fn block_lines(atts: Seq<InteractionView>, turn: InteractionView) -> Seq<Seq<char>> {
    seq![field_line(tag_created_at(), turn_time(turn).text())] + attach_lines(atts) + lines_of(
        field_line(turn_tag(turn), turn_content(turn)),
    )
}

/// The text of a written block, without the blank line before it.
pub open spec fn block_inner(atts: Seq<InteractionView>, turn: InteractionView) -> Seq<char> {
    field_line(tag_created_at(), turn_time(turn).text()) + "\n"@ + pending_text(atts) + field_line(
        turn_tag(turn),
        trim_end(turn_content(turn)),
    )
}

/// The waiting attachments, line by line, before whatever follows them.
pub proof fn lemma_pending_lines(atts: Seq<InteractionView>, rest: Seq<char>)
    requires
        attachments_ok(atts),
    ensures
        lines_of(pending_text(atts) + rest) == attach_lines(atts) + lines_of(rest),
    decreases atts.len(),
{
    lemma_tags();
    if atts.len() == 0 {
        assert(pending_text(atts) + rest =~= rest);
        assert(attach_lines(atts) + lines_of(rest) =~= lines_of(rest));
    } else {
        let last = atts.last();
        let line = attach_text(last);
        assert(attachments_ok(atts.drop_last())) by {
            assert forall|i: int| 0 <= i < atts.drop_last().len() implies (
            #[trigger] atts.drop_last()[i]) is Attachment && item_ok(atts.drop_last()[i]) by {
                assert(atts.drop_last()[i] == atts[i]);
            }
        }
        assert(last is Attachment && item_ok(last));
        assert(is_line(line));
        let tail = line + seq!['\n'] + rest;
        assert("\n"@ =~= seq!['\n']);
        assert(pending_text(atts) + rest =~= pending_text(atts.drop_last()) + tail);
        lemma_pending_lines(atts.drop_last(), tail);
        lemma_lines_joined(line, rest);
        lemma_lines_of_line(line);
        assert(attach_lines(atts.drop_last()) + (seq![line] + lines_of(rest)) =~= attach_lines(atts)
            + lines_of(rest));
    }
}

/// A written block, line by line.
pub proof fn lemma_block_lines(atts: Seq<InteractionView>, turn: InteractionView)
    requires
        attachments_ok(atts),
        turn_ok(turn),
    ensures
        lines_of(block_inner(atts, turn)) == block_lines(atts, turn),
{
    lemma_tags();
    crate::time::lemma_rfc3339_text_is_clean(turn_time(turn));
    let created = field_line(tag_created_at(), turn_time(turn).text());
    lemma_field_line(tag_created_at(), turn_time(turn).text());
    assert(trim_end(turn_content(turn)) == turn_content(turn));
    let tail = field_line(turn_tag(turn), turn_content(turn));
    assert("\n"@ =~= seq!['\n']);
    assert(block_inner(atts, turn) =~= created + seq!['\n'] + (pending_text(atts) + tail));
    lemma_lines_joined(created, pending_text(atts) + tail);
    lemma_lines_of_line(created);
    lemma_pending_lines(atts, tail);
    assert(seq![created] + (attach_lines(atts) + lines_of(tail)) =~= block_lines(atts, turn));
}

/// Reading a written attachment line adds the attachment to the block.
pub proof fn lemma_attach_step(b: Block, item: InteractionView, now: Timestamp)
    requires
        b.kind is None,
        item is Attachment,
        item_ok(item),
    ensures
        block_step(b, attach_text(item), now) == (Block {
            attachments: b.attachments.push(item),
            ..b
        }),
        attach_text(item).len() > 0,
{
    lemma_tags();
    let filename = item->Attachment_filename;
    let mime_type = item->Attachment_mime_type;
    let line = attach_text(item);
    let value = " "@ + filename + " : "@ + mime_type;
    assert(line =~= tag_attach() + value);
    lemma_prefix_of_concat(tag_attach(), value);
    lemma_prefix_clash(line, tag_attach(), tag_created_at(), 3);
    let left = " "@ + filename + " "@;
    let right = " "@ + mime_type;
    let colon = seq![':'];
    assert(value =~= left + (colon + right));
    assert(forall|i: int| 0 <= i < left.len() ==> #[trigger] left[i] != ':');
    lemma_first_colon_skip(left, colon + right);
    assert((colon + right)[0] == ':');
    assert(first_colon(colon + right) == 0);
    let k = first_colon(value);
    assert(k == left.len());
    assert(value.take(k) =~= left);
    assert(value.skip(k + 1) =~= right);
    lemma_first_colon_bound(right);
    assert(first_colon(right) == right.len()) by {
        if first_colon(right) < right.len() {
            assert(right[first_colon(right)] == ':');
        }
    }
    assert(is_blank(" "@));
    lemma_trim_between_blanks(" "@, filename, " "@);
    assert(is_blank(Seq::<char>::empty()));
    lemma_trim_between_blanks(" "@, mime_type, Seq::<char>::empty());
    assert(" "@ + mime_type + Seq::<char>::empty() =~= right);
    assert(item == InteractionView::Attachment { filename, mime_type });
}

/// Reading written attachment lines adds the attachments to the block.
pub proof fn lemma_scan_attachments(s: Body, atts: Seq<InteractionView>, now: Timestamp)
    requires
        s.block.kind is None,
        !s.fresh,
        attachments_ok(atts),
    ensures
        body_scan(s, attach_lines(atts), now) == (Body {
            block: Block { attachments: s.block.attachments + atts, ..s.block },
            ..s
        }),
    decreases atts.len(),
{
    if atts.len() == 0 {
        assert(s.block.attachments + atts =~= s.block.attachments);
    } else {
        let before = atts.drop_last();
        assert(attachments_ok(before)) by {
            assert forall|i: int| 0 <= i < before.len() implies (#[trigger] before[i]) is Attachment
                && item_ok(before[i]) by {
                assert(before[i] == atts[i]);
            }
        }
        lemma_scan_attachments(s, before, now);
        assert(attach_lines(atts).drop_last() =~= attach_lines(before));
        assert(attach_lines(atts).last() == attach_text(atts.last()));
        let mid = body_scan(s, attach_lines(before), now);
        lemma_attach_step(mid.block, atts.last(), now);
        assert((s.block.attachments + before).push(atts.last()) =~= s.block.attachments + atts);
    }
}

/// Reading the lines that continue a content appends each to it.
pub proof fn lemma_scan_content(s: Body, first: Seq<char>, rest: Seq<Seq<char>>, now: Timestamp)
    requires
        s.block.kind is Some,
        s.block.content == first,
        !s.fresh,
        forall|i: int| 0 <= i < rest.len() ==> (#[trigger] rest[i]).len() > 0,
    ensures
        body_scan(s, rest, now) == (Body {
            block: Block { content: join_lines(seq![first] + rest), ..s.block },
            ..s
        }),
    decreases rest.len(),
{
    if rest.len() == 0 {
        assert(seq![first] + rest =~= seq![first]);
    } else {
        lemma_scan_content(s, first, rest.drop_last(), now);
        assert((seq![first] + rest).drop_last() =~= seq![first] + rest.drop_last());
        assert((seq![first] + rest).last() == rest.last());
    }
}

/// Reading the lines of a written block gives the block: its time, its
/// attachments, its kind and its content.
pub proof fn lemma_scan_block(s: Body, atts: Seq<InteractionView>, turn: InteractionView, now: Timestamp)
    requires
        s.block == block_start(),
        s.fresh,
        attachments_ok(atts),
        turn_ok(turn),
    ensures
        body_scan(s, block_lines(atts, turn), now) == (Body {
            done: s.done,
            waiting: s.waiting,
            failed: s.failed,
            block: Block {
                created: Some(turn_time(turn)),
                attachments: atts,
                kind: Some(turn_kind(turn)),
                content: turn_content(turn),
                stray: false,
            },
            fresh: false,
        }),
{
    lemma_tags();
    let t = turn_time(turn);
    crate::time::lemma_rfc3339_text_is_clean(t);
    let created = field_line(tag_created_at(), t.text());
    lemma_field_line(tag_created_at(), t.text());
    let s1 = body_step(s, created, now);
    assert(s1.block.created == Some(t));
    lemma_body_scan_one(s, created, now);
    lemma_scan_attachments(s1, atts, now);
    let s2 = body_scan(s1, attach_lines(atts), now);
    assert(block_start().attachments + atts =~= atts);
    let content = turn_content(turn);
    let tag = turn_tag(turn);
    lemma_lines_of_shape(content);
    let first = lines_of(content)[0];
    let rest = lines_of(content).skip(1);
    let lead = field_line(tag, Seq::empty());
    lemma_field_line(tag, Seq::empty());
    assert(lead =~= tag + " "@);
    assert(is_line(lead));
    assert(field_line(tag, content) =~= lead + content);
    lemma_lines_after_line(lead, content);
    let opening = field_line(tag, first);
    assert(lead + first =~= opening);
    assert(lines_of(field_line(tag, content)) == seq![opening] + rest);
    lemma_field_line(tag, first);
    lemma_prefix_clash(opening, tag, tag_created_at(), 3);
    lemma_prefix_clash(opening, tag, tag_attach(), 3);
    if !(turn is User) {
        lemma_prefix_clash(opening, tag, tag_user(), 3);
        if !(turn is Ai) {
            lemma_prefix_clash(opening, tag, tag_response(), 3);
        }
    }
    let s3 = body_step(s2, opening, now);
    assert(s3.block.kind == Some(turn_kind(turn)));
    assert(s3.block.content == first);
    lemma_body_scan_one(s2, opening, now);
    lemma_scan_content(s3, first, rest, now);
    assert(seq![first] + rest =~= lines_of(content));
    lemma_join_lines_of(content);
    let head = seq![created] + attach_lines(atts);
    lemma_body_scan_concat(s, seq![created], attach_lines(atts), now);
    lemma_body_scan_concat(s, head, seq![opening], now);
    lemma_body_scan_concat(s, head + seq![opening], rest, now);
    assert(head + seq![opening] + rest =~= block_lines(atts, turn));
}

/// The attachments at the end of the interactions, after the last turn.
pub open spec fn trailing(items: Seq<InteractionView>) -> Seq<InteractionView>
    decreases items.len(),
{
    if items.len() == 0 {
        Seq::empty()
    } else if items.last() is Attachment {
        trailing(items.drop_last()).push(items.last())
    } else {
        Seq::empty()
    }
}

/// The interactions up to and including the last turn.
pub open spec fn settled(items: Seq<InteractionView>) -> Seq<InteractionView> {
    items.take(items.len() - trailing(items).len())
}

/// Whether a turn is among the interactions.
pub open spec fn has_turn(items: Seq<InteractionView>) -> bool {
    trailing(items).len() < items.len()
}

/// The lines of the written blocks, with one empty line between blocks.
pub open spec fn body_lines(items: Seq<InteractionView>) -> Seq<Seq<char>>
    decreases items.len(),
{
    if items.len() == 0 {
        Seq::empty()
    } else if items.last() is Attachment {
        body_lines(items.drop_last())
    } else {
        (if has_turn(items.drop_last()) {
            body_lines(items.drop_last()).push(Seq::<char>::empty())
        } else {
            Seq::empty()
        }) + block_lines(trailing(items.drop_last()), items.last())
    }
}

/// Whether every interaction is as the reader leaves it and prints well.
pub open spec fn items_ok(items: Seq<InteractionView>) -> bool {
    forall|i: int|
        0 <= i < items.len() ==> item_ok(#[trigger] items[i]) && (is_turn(items[i]) ==> turn_ok(
            items[i],
        ))
}

/// The attachments at the end are attachments, and with what comes before
/// them they make up the interactions.
pub proof fn lemma_trailing(items: Seq<InteractionView>)
    requires
        items_ok(items),
    ensures
        trailing(items).len() <= items.len(),
        attachments_ok(trailing(items)),
        settled(items) + trailing(items) == items,
        has_turn(items) ==> is_turn(settled(items).last()),
        items.len() > 0 ==> items_ok(items.drop_last()),
    decreases items.len(),
{
    if items.len() > 0 {
        let before = items.drop_last();
        assert(items_ok(before)) by {
            assert forall|i: int| 0 <= i < before.len() implies item_ok(#[trigger] before[i]) && (
            is_turn(before[i]) ==> turn_ok(before[i])) by {
                assert(before[i] == items[i]);
            }
        }
        if items.last() is Attachment {
            lemma_trailing(before);
            assert(settled(items) =~= settled(before));
            assert(settled(before) + trailing(before).push(items.last()) =~= (settled(before)
                + trailing(before)).push(items.last()));
            assert(before.push(items.last()) =~= items);
        } else {
            assert(settled(items) =~= items);
            assert(settled(items) + trailing(items) =~= items);
        }
    } else {
        assert(settled(items) + trailing(items) =~= items);
    }
}

/// The state of the reader after a body was read and its last block ended.
pub open spec fn body_done(items: Seq<InteractionView>) -> Body {
    Body {
        done: items,
        waiting: Seq::empty(),
        failed: false,
        block: block_start(),
        fresh: true,
    }
}

/// Reading the lines of the written blocks gives, once the last block is
/// ended, the interactions up to the last turn.
pub proof fn lemma_scan_body(items: Seq<InteractionView>, now: Timestamp)
    requires
        items_ok(items),
        has_turn(items),
    ensures
        body_scan(body_start(), body_lines(items), now).block.kind is Some,
        !body_scan(body_start(), body_lines(items), now).fresh,
        body_close(body_scan(body_start(), body_lines(items), now), now) == body_done(
            settled(items),
        ),
        body_lines(items).len() > 0,
        has_prefix(body_lines(items)[0], tag_mark()),
    decreases items.len(),
{
    lemma_tags();
    lemma_trailing(items);
    let before = items.drop_last();
    let last = items.last();
    lemma_trailing(before);
    if last is Attachment {
        lemma_scan_body(before, now);
        assert(settled(items) =~= settled(before));
    } else {
        let empty = Seq::<char>::empty();
        let atts = trailing(before);
        let lines = block_lines(atts, last);
        lemma_field_line(tag_created_at(), turn_time(last).text());
        assert(lines[0] == field_line(tag_created_at(), turn_time(last).text()));
        let s0 = if has_turn(before) {
            lemma_scan_body(before, now);
            let st = body_scan(body_start(), body_lines(before), now);
            lemma_body_scan_concat(body_start(), body_lines(before), seq![empty], now);
            lemma_body_scan_one(st, empty, now);
            assert(body_lines(before).push(empty) =~= body_lines(before) + seq![empty]);
            lemma_body_scan_concat(body_start(), body_lines(before).push(empty), lines, now);
            assert((body_lines(before).push(empty) + lines)[0] == body_lines(before)[0]);
            body_close(st, now)
        } else {
            assert(settled(before) =~= Seq::<InteractionView>::empty());
            assert(Seq::<Seq<char>>::empty() + lines =~= lines);
            body_start()
        };
        assert(s0 == body_done(settled(before)));
        lemma_scan_block(s0, atts, last, now);
        let st = body_scan(s0, lines, now);
        assert(body_scan(body_start(), body_lines(items), now) == st);
        assert(turn_of(turn_kind(last), turn_content(last), turn_time(last)) == last);
        assert(trim_end(turn_content(last)) == turn_content(last));
        assert(settled(before) + Seq::<InteractionView>::empty() + atts + seq![last] =~= items);
        assert(settled(items) =~= items);
    }
}

/// Where writing starts: the header, nothing waiting.
pub open spec fn written_start(log: ChatLogView) -> Written {
    Written { text: header_text(log), pending: Seq::empty() }
}

/// What was written after some interactions, line by line: the header, then
/// an empty line and the blocks where a turn is among them; the attachments
/// after the last turn wait.
pub proof fn lemma_written(log: ChatLogView, items: Seq<InteractionView>)
    requires
        items_ok(items),
    ensures
        write_all(written_start(log), items).pending == pending_text(trailing(items)),
        has_turn(items) ==> lines_of(write_all(written_start(log), items).text) == lines_of(
            header_text(log),
        ).push(Seq::<char>::empty()) + body_lines(items),
        has_turn(items) && trailing(items).len() == 0 ==> write_all(
            written_start(log),
            items,
        ).text.len() > 0 && write_all(written_start(log), items).text.last() != '\n',
        !has_turn(items) ==> write_all(written_start(log), items).text == header_text(log),
    decreases items.len(),
{
    lemma_tags();
    if items.len() > 0 {
        lemma_trailing(items);
        let before = items.drop_last();
        let last = items.last();
        lemma_trailing(before);
        lemma_written(log, before);
        let w = write_all(written_start(log), before);
        let atts = trailing(before);
        let empty = Seq::<char>::empty();
        match last {
            InteractionView::Attachment { filename, mime_type } => {
                assert(attach_line(filename, mime_type) =~= attach_text(last) + "\n"@);
                assert(trailing(items) == atts.push(last));
                assert(atts.push(last).drop_last() =~= atts);
                assert(pending_text(atts.push(last)) == pending_text(atts) + attach_text(last)
                    + "\n"@);
                assert(w.pending + attach_line(filename, mime_type) =~= pending_text(
                    trailing(items),
                ));
            },
            _ => {
                let tag = turn_tag(last);
                let content = turn_content(last);
                let t = turn_time(last);
                let inner = block_inner(atts, last);
                let after = write_step(w, last);
                assert(after.text == w.text + block_text(w.pending, tag, content, t));
                assert("\n\n"@ =~= seq!['\n', '\n']);
                assert(block_text(w.pending, tag, content, t) =~= seq!['\n', '\n'] + inner);
                assert(after.text =~= w.text + seq!['\n', '\n'] + inner);
                lemma_lines_blank_between(w.text, inner);
                lemma_block_lines(atts, last);
                assert(lines_of(w.text).push(empty) + block_lines(atts, last) =~= lines_of(
                    header_text(log),
                ).push(empty) + body_lines(items));
                let closing = field_line(tag, trim_end(content));
                lemma_trim_end_shape(content);
                assert(closing.len() > 0);
                assert(closing.last() != '\n') by {
                    if trim_end(content).len() > 0 {
                        assert(closing.last() == trim_end(content).last());
                    } else {
                        assert(closing =~= tag + " "@);
                    }
                }
                assert(inner.last() == closing.last());
                assert(after.text.last() == inner.last());
                assert(pending_text(trailing(items)) =~= Seq::<char>::empty());
            },
        }
    }
}

/// The header ends at the first line that the body follows.
pub proof fn lemma_header_end_from(lines: Seq<Seq<char>>, from: int, k: int)
    requires
        0 <= from <= k,
        body_follows(lines, k),
        forall|j: int| from <= j < k ==> !body_follows(lines, j),
    ensures
        header_end_from(lines, from) == k,
    decreases k - from,
{
    if from < k {
        lemma_header_end_from(lines, from + 1, k);
    }
}

/// A text that no body follows anywhere is all header.
pub proof fn lemma_header_end_none(lines: Seq<Seq<char>>, from: int)
    requires
        0 <= from,
        forall|j: int| from <= j ==> !body_follows(lines, j),
    ensures
        header_end_from(lines, from) == -1,
    decreases lines.len() - from,
{
    if from + 2 < lines.len() {
        lemma_header_end_none(lines, from + 1);
    }
}

/// The lines of the written header: none but the last is empty, the first
/// begins with a colon, and the last is not blank where the log has a system
/// prompt.
pub proof fn lemma_header_lines_shape(log: ChatLogView)
    requires
        canonical(log),
        uuid_prints_well(log.uuid.value),
    ensures
        header_lines(log).len() >= 4,
        forall|i: int| 0 <= i < header_lines(log).len() - 1 ==> (#[trigger] header_lines(log)[i]).len()
            > 0,
        header_lines(log)[0].len() > 0 && header_lines(log)[0][0] == ':',
        log.system_prompt is None ==> header_lines(log) == fixed_lines(log).push(
            Seq::<char>::empty(),
        ),
        fixed_lines(log).len() >= 3,
        forall|i: int| 0 <= i < fixed_lines(log).len() ==> has_prefix(
            #[trigger] fixed_lines(log)[i],
            tag_mark(),
        ),
{
    lemma_tags();
    let fixed = fixed_lines(log);
    let status = log.status->Some_0;
    lemma_field_line(tag_uuid(), log.uuid.text());
    lemma_field_line(tag_title(), log.title);
    lemma_field_line(tag_status(), status);
    if let Some(model) = log.model {
        lemma_field_line(tag_model(), model);
    }
    assert forall|i: int| 0 <= i < fixed.len() implies has_prefix(#[trigger] fixed[i], tag_mark()) by {}
    let first = header_lines(log)[0];
    assert(first == fixed[0]);
    assert(first.subrange(0, 3)[0] == tag_mark()[0]);
    let tail = lines_of(prompt_text(log));
    lemma_lines_of_shape(prompt_text(log));
    match log.system_prompt {
        Some(prompt) => {
            lemma_lines_of_shape(prompt);
            let lead = field_line(tag_system(), Seq::empty());
            lemma_field_line(tag_system(), Seq::empty());
            assert(lead =~= tag_system() + " "@);
            assert(field_line(tag_system(), prompt) =~= lead + prompt);
            lemma_lines_after_line(lead, prompt);
            lemma_field_line(tag_system(), lines_of(prompt)[0]);
            assert(lead + lines_of(prompt)[0] =~= field_line(tag_system(), lines_of(prompt)[0]));
            assert forall|i: int| 0 <= i < tail.len() implies (#[trigger] tail[i]).len() > 0 by {
                if i > 0 {
                    assert(tail[i] == lines_of(prompt)[i]);
                }
            }
        },
        None => {
            assert(prompt_text(log).len() == 0);
            assert(tail =~= seq![Seq::<char>::empty()]);
            assert(header_lines(log) =~= fixed.push(Seq::<char>::empty()));
        },
    }
}

/// A log with at least one turn reads back from what it is written as.
pub proof fn lemma_roundtrip_with_turns(log: ChatLogView, now: Timestamp)
    requires
        canonical(log),
        prints_well(log),
        log.interactions.len() > 0,
    ensures
        parse_spec(format_spec(log), now) == Some(log),
{
    lemma_tags();
    let items = log.interactions;
    let empty = Seq::<char>::empty();
    assert(items_ok(items)) by {
        assert forall|i: int| 0 <= i < items.len() implies item_ok(#[trigger] items[i]) && (is_turn(
            items[i],
        ) ==> turn_ok(items[i])) by {
            assert(time_of(items[i]) matches Some(t) ==> t.prints_clean() && t.reads_back());
        }
    }
    assert(trailing(items).len() == 0);
    lemma_trailing(items);
    assert(settled(items) =~= items);
    lemma_written(log, items);
    lemma_scan_body(items, now);
    lemma_header_lines(log);
    lemma_header_lines_shape(log);
    lemma_header_scan(log);
    let w = write_all(written_start(log), items);
    let text = format_spec(log);
    assert(text == w.text.push('\n'));
    lemma_lines_push_newline(w.text);
    let head = header_lines(log);
    let body = body_lines(items);
    let lines = lines_of(text);
    assert(lines == (head.push(empty) + body).push(empty));
    let k = head.len() - 1;
    assert(lines[k + 1] == empty);
    assert(lines[k + 2] == body[0]);
    assert(body_follows(lines, k));
    assert forall|j: int| 0 <= j < k implies !body_follows(lines, j) by {
        if j + 1 < k {
            assert(lines[j + 1] == head[j + 1]);
        } else {
            assert(lines[j + 2] == empty);
        }
    }
    lemma_header_end_from(lines, 0, k);
    assert(lines.take(k + 1) =~= head);
    assert(lines.skip(k + 2) =~= body.push(empty));
    assert(body.push(empty).drop_last() =~= body);
    let st = body_scan(body_start(), body, now);
    let fed = body_feed(st, empty, now);
    assert(fed.block.content == st.block.content + seq!['\n'] + empty);
    assert(is_blank(seq!['\n'] + empty));
    assert(st.block.content + seq!['\n'] + empty =~= st.block.content + (seq!['\n'] + empty));
    lemma_trim_end_blank(st.block.content, seq!['\n'] + empty);
    assert(body_close(fed, now) == body_close(st, now));
    let h = header_scan(header_start(), head);
    assert(assemble(h, body_done(items)) == Some(log));
}

/// Trimming the end of a written field line whose value does not end in
/// white space: the line stays, or loses the space after its tag where the
/// value is empty.
pub proof fn lemma_trim_end_field_line(tag: Seq<char>, value: Seq<char>)
    requires
        tag.len() > 0,
        !is_space(tag.last()),
        trim_end(value) == value,
    ensures
        trim_end(field_line(tag, value)) == if value.len() > 0 {
            field_line(tag, value)
        } else {
            tag
        },
{
    lemma_tags();
    let line = field_line(tag, value);
    lemma_trim_end_shape(value);
    if value.len() > 0 {
        assert(line.last() == value.last());
    } else {
        assert(line =~= tag + " "@);
        assert(is_blank(" "@));
        lemma_trim_end_blank(tag, " "@);
    }
}

/// A bare status, model or system tag reads as that tag with an empty
/// value.
pub proof fn lemma_bare_tag_step(h: Header, tag: Seq<char>)
    requires
        tag == tag_status() || tag == tag_model() || tag == tag_system(),
    ensures
        header_step(h, tag) == header_step(h, field_line(tag, Seq::empty())),
{
    lemma_tags();
    let empty = Seq::<char>::empty();
    let line = field_line(tag, empty);
    lemma_field_line(tag, empty);
    assert(tag.subrange(0, tag.len() as int) =~= tag);
    assert(has_prefix(tag, tag));
    assert(value_after(tag, tag) =~= empty);
    assert(trim(empty) == empty);
    assert(trim_start(empty) == empty);
    if tag == tag_status() {
        lemma_prefix_clash(tag, tag, tag_uuid(), 3);
        lemma_prefix_clash(tag, tag, tag_title(), 3);
        lemma_prefix_clash(tag, tag, tag_model(), 3);
        lemma_prefix_clash(line, tag, tag_uuid(), 3);
        lemma_prefix_clash(line, tag, tag_title(), 3);
        lemma_prefix_clash(line, tag, tag_model(), 3);
    } else if tag == tag_model() {
        lemma_prefix_clash(tag, tag, tag_uuid(), 3);
        lemma_prefix_clash(tag, tag, tag_title(), 3);
        lemma_prefix_clash(line, tag, tag_uuid(), 3);
        lemma_prefix_clash(line, tag, tag_title(), 3);
    } else {
        lemma_prefix_clash(tag, tag, tag_uuid(), 3);
        lemma_prefix_clash(tag, tag, tag_title(), 3);
        lemma_prefix_clash(tag, tag, tag_model(), 3);
        lemma_prefix_clash(tag, tag, tag_status(), 4);
        lemma_prefix_clash(line, tag, tag_uuid(), 3);
        lemma_prefix_clash(line, tag, tag_title(), 3);
        lemma_prefix_clash(line, tag, tag_model(), 3);
        lemma_prefix_clash(line, tag, tag_status(), 4);
    }
}

/// The last written header line reads the same with its end trimmed.
pub proof fn lemma_last_header_line(log: ChatLogView, h: Header)
    requires
        canonical(log),
        uuid_prints_well(log.uuid.value),
    ensures
        ({
            let lines = if log.system_prompt is Some {
                header_lines(log)
            } else {
                fixed_lines(log)
            };
            &&& lines.len() >= 3
            &&& !is_blank(lines.last())
            &&& header_step(h, trim_end(lines.last())) == header_step(h, lines.last())
        }),
{
    lemma_tags();
    lemma_header_lines_shape(log);
    let status = log.status->Some_0;
    match log.system_prompt {
        Some(prompt) => {
            let lines = header_lines(log);
            let tail = lines_of(field_line(tag_system(), prompt));
            assert(trim_end(prompt) == prompt);
            lemma_lines_of_shape(prompt);
            lemma_lines_of_shape(field_line(tag_system(), prompt));
            let lead = field_line(tag_system(), Seq::empty());
            lemma_field_line(tag_system(), Seq::empty());
            assert(lead =~= tag_system() + " "@);
            assert(field_line(tag_system(), prompt) =~= lead + prompt);
            lemma_lines_after_line(lead, prompt);
            assert(lead + lines_of(prompt)[0] =~= field_line(tag_system(), lines_of(prompt)[0]));
            assert(lines.last() == tail.last());
            lemma_trim_end_shape(prompt);
            if lines_of(prompt).len() == 1 {
                lemma_join_lines_of(prompt);
                assert(lines_of(prompt)[0] == prompt);
                let line = field_line(tag_system(), prompt);
                assert(tail.last() == line);
                lemma_trim_end_field_line(tag_system(), prompt);
                lemma_field_line(tag_system(), prompt);
                lemma_bare_tag_step(h, tag_system());
                assert(line[0] == ':');
                assert(!is_space(line[0]));
            } else {
                let last = lines_of(prompt).last();
                assert(tail.last() == last);
                assert(last.len() > 0);
                lemma_last_line_end(prompt);
                assert(!is_space(last.last()));
                assert(trim_end(last) == last);
            }
        },
        None => {
            let lines = fixed_lines(log);
            let (tag, value) = match log.model {
                Some(model) => (tag_model(), model),
                None => (tag_status(), status),
            };
            let line = field_line(tag, value);
            assert(lines.last() == line);
            lemma_trim_shape(value);
            lemma_trim_end_field_line(tag, value);
            lemma_field_line(tag, value);
            lemma_bare_tag_step(h, tag);
            assert(line.subrange(0, 3)[0] == tag_mark()[0]);
            assert(!is_space(line[0]));
        },
    }
}

/// A log without interactions reads back from what it is written as.
pub proof fn lemma_roundtrip_header_only(log: ChatLogView, now: Timestamp)
    requires
        canonical(log),
        prints_well(log),
        log.interactions.len() == 0,
    ensures
        parse_spec(format_spec(log), now) == Some(log),
{
    lemma_tags();
    let empty = Seq::<char>::empty();
    lemma_header_lines(log);
    lemma_header_lines_shape(log);
    lemma_header_scan(log);
    let head_text = header_text(log);
    assert(log.interactions =~= Seq::<InteractionView>::empty());
    assert(write_all(written_start(log), log.interactions).text == head_text);
    let head = header_lines(log);
    lemma_first_line_start(head_text);
    lemma_last_line_end(head_text);
    let text = format_spec(log);
    let kept = if log.system_prompt is Some {
        head
    } else {
        fixed_lines(log)
    };
    lemma_last_header_line(log, header_scan(header_start(), kept.drop_last()));
    let lines = lines_of(text);
    if log.system_prompt is Some {
        assert(head.last().len() > 0);
        assert(text == head_text.push('\n'));
        lemma_lines_push_newline(head_text);
        assert(lines == kept.push(empty));
    } else {
        assert(head.last().len() == 0);
        assert(text == head_text);
        assert(lines == kept.push(empty));
    }
    assert(text[0] == ':');
    assert(trim_start(text) == text);
    assert forall|j: int| 0 <= j implies !body_follows(lines, j) by {
        if j + 2 < lines.len() {
            assert(lines[j + 1] == kept[j + 1]);
        }
    }
    lemma_header_end_none(lines, 0);
    lemma_lines_of_trim_end(text);
    let cut = lines_of(trim_end(text));
    assert(cut.len() == kept.len()) by {
        if cut.len() < kept.len() {
            assert(is_blank(lines[kept.len() - 1]));
        }
        if cut.len() > kept.len() {
            assert(lines[cut.len() - 1] == empty);
        }
    }
    assert(cut =~= kept.drop_last().push(trim_end(kept.last()))) by {
        assert forall|i: int| 0 <= i < cut.len() - 1 implies cut[i] == kept[i] by {
            assert(cut[i] == lines[i]);
        }
        assert(lines[cut.len() - 1] == kept.last());
    }
    let before = header_scan(header_start(), kept.drop_last());
    assert(cut.drop_last() =~= kept.drop_last());
    assert(header_scan(header_start(), cut) == header_step(before, trim_end(kept.last())));
    assert(header_scan(header_start(), kept) == header_step(before, kept.last()));
    if log.system_prompt is None {
        lemma_header_scan_concat(header_start(), kept, seq![empty]);
        lemma_header_scan_one(header_scan(header_start(), kept), empty);
        assert(head =~= kept + seq![empty]);
    }
    let h = header_scan(header_start(), cut);
    assert(header_read(h, log));
    assert(assemble(h, body_start()) == Some(log));
}

/// A log in the shape that the reader gives, whose identifier and times
/// print as texts that read back, is written as a text that reads as the
/// same log, whatever the clock says at the second reading.
pub proof fn lemma_format_parse_roundtrip(log: ChatLogView, now: Timestamp)
    requires
        canonical(log),
        prints_well(log),
    ensures
        parse_spec(format_spec(log), now) == Some(log),
{
    if log.interactions.len() > 0 {
        lemma_roundtrip_with_turns(log, now);
    } else {
        lemma_roundtrip_header_only(log, now);
    }
}

/// A content while its block is being read: its first line has no white
/// space at its start, and none of its later lines is empty, except the last
/// one where `loose`.
pub open spec fn text_pre(c: Seq<char>, loose: bool) -> bool {
    &&& trim_start(lines_of(c)[0]) == lines_of(c)[0]
    &&& forall|i: int|
        1 <= i < lines_of(c).len() - (if loose {
            1int
        } else {
            0int
        }) ==> (#[trigger] lines_of(c)[i]).len() > 0
}

/// Trimming the end of a content that was read line by line gives a content
/// as the reader leaves it, each of whose lines begins a line of the
/// untrimmed one.
pub proof fn lemma_trimmed_content(c: Seq<char>)
    requires
        text_pre(c, true),
    ensures
        text_ok(trim_end(c)),
        lines_of(trim_end(c)).len() <= lines_of(c).len(),
        forall|i: int|
            0 <= i < lines_of(trim_end(c)).len() ==> has_prefix(
                lines_of(c)[i],
                #[trigger] lines_of(trim_end(c))[i],
            ),
{
    lemma_lines_of_trim_end(c);
    lemma_trim_end_shape(c);
    lemma_lines_of_shape(c);
    let full = lines_of(c);
    let cut = lines_of(trim_end(c));
    let j = cut.len() - 1;
    lemma_trim_end_shape(full[j]);
    assert(has_prefix(full[j], cut[j])) by {
        assert(full[j].subrange(0, cut[j].len() as int) =~= full[j].take(cut[j].len() as int));
    }
    assert forall|i: int| 0 <= i < cut.len() implies has_prefix(full[i], #[trigger] cut[i]) by {
        if i < j {
            assert(cut[i] == full[i]);
            assert(full[i].subrange(0, full[i].len() as int) =~= full[i]);
        }
    }
    if j == 0 {
        lemma_trim_start_shape(full[0]);
        if cut[0].len() > 0 {
            assert(cut[0][0] == full[0][0]);
            assert(trim_start(full[0]).len() > 0 ==> !is_space(trim_start(full[0])[0]));
        }
    } else {
        assert(cut[0] == full[0]);
    }
    assert forall|i: int| 1 <= i < cut.len() implies (#[trigger] cut[i]).len() > 0 by {
        if i < j {
            assert(cut[i] == full[i]);
        }
    }
}

/// What trimming leaves of a text without a colon holds no colon.
pub proof fn lemma_trim_no_colon(v: Seq<char>)
    requires
        no_colon(v),
    ensures
        no_colon(trim(v)),
{
    lemma_trim_start_shape(v);
    lemma_trim_end_shape(trim_start(v));
}

/// What holds of the header while it is being read.
pub open spec fn header_inv(h: Header) -> bool {
    &&& field_ok(h.title)
    &&& h.status matches Some(status) && field_ok(status)
    &&& h.model matches Some(model) ==> field_ok(model)
    &&& h.prompt matches Some(prompt) ==> text_pre(prompt, false) && forall|i: int|
        1 <= i < lines_of(prompt).len() ==> !has_prefix(#[trigger] lines_of(prompt)[i], tag_mark())
}

/// A trimmed value of a line is a header value as the reader leaves it.
pub proof fn lemma_trimmed_field(line: Seq<char>, from: int)
    requires
        is_line(line),
        0 <= from <= line.len(),
    ensures
        field_ok(trim(line.skip(from))),
        is_line(trim_start(line.skip(from))),
        lines_of(trim_start(line.skip(from))) == seq![trim_start(line.skip(from))],
        trim_start(trim_start(line.skip(from))) == trim_start(line.skip(from)),
{
    let value = line.skip(from);
    assert forall|i: int| 0 <= i < value.len() implies #[trigger] value[i] != '\n' by {
        assert(value[i] == line[from + i]);
    }
    lemma_trim_of_line(value);
    lemma_trim_shape(value);
    lemma_trim_start_shape(value);
    lemma_lines_of_line(trim_start(value));
}

/// Reading a header line keeps the header in shape.
pub proof fn lemma_header_step_inv(h: Header, line: Seq<char>)
    requires
        header_inv(h),
        is_line(line),
    ensures
        header_inv(header_step(h, line)),
{
    if has_prefix(line, tag_title()) {
        lemma_trimmed_field(line, tag_title().len() as int);
    }
    if has_prefix(line, tag_model()) {
        lemma_trimmed_field(line, tag_model().len() as int);
    }
    if has_prefix(line, tag_status()) {
        lemma_trimmed_field(line, tag_status().len() as int);
    }
    if has_prefix(line, tag_system()) {
        lemma_trimmed_field(line, tag_system().len() as int);
    }
    if line.len() > 0 && !has_prefix(line, tag_mark()) && h.in_prompt && h.prompt is Some {
        let prompt = h.prompt->Some_0;
        lemma_lines_joined(prompt, line);
        lemma_lines_of_line(line);
        lemma_lines_of_shape(prompt);
        let grown = prompt + seq!['\n'] + line;
        assert(lines_of(grown) == lines_of(prompt) + seq![line]);
        assert forall|i: int| 1 <= i < lines_of(grown).len() implies (#[trigger] lines_of(
            grown,
        )[i]).len() > 0 && !has_prefix(lines_of(grown)[i], tag_mark()) by {
            if i < lines_of(prompt).len() {
                assert(lines_of(grown)[i] == lines_of(prompt)[i]);
            }
        }
        assert(lines_of(grown)[0] == lines_of(prompt)[0]);
    }
}

/// Reading header lines keeps the header in shape.
pub proof fn lemma_header_scan_inv(h: Header, lines: Seq<Seq<char>>)
    requires
        header_inv(h),
        forall|i: int| 0 <= i < lines.len() ==> is_line(#[trigger] lines[i]),
    ensures
        header_inv(header_scan(h, lines)),
    decreases lines.len(),
{
    if lines.len() > 0 {
        assert forall|i: int| 0 <= i < lines.drop_last().len() implies is_line(
            #[trigger] lines.drop_last()[i],
        ) by {
            assert(lines.drop_last()[i] == lines[i]);
        }
        lemma_header_scan_inv(h, lines.drop_last());
        lemma_header_step_inv(header_scan(h, lines.drop_last()), lines.last());
    }
}

/// The header is in shape before any line is read.
pub proof fn lemma_header_start_inv()
    ensures
        header_inv(header_start()),
{
    reveal_strlit("Untitled");
    reveal_strlit("local");
    let title = "Untitled"@;
    let status = "local"@;
    assert(is_line(title));
    assert(is_line(status));
    assert(trim_start(title) == title);
    assert(trim_end(title) == title);
    assert(trim_start(status) == status);
    assert(trim_end(status) == status);
}

/// What holds of a block while it is being read.
pub open spec fn block_inv(b: Block, loose: bool) -> bool {
    &&& attachments_ok(b.attachments)
    &&& b.kind is Some ==> text_pre(b.content, loose)
}

/// What holds of the body while it is being read.
pub open spec fn body_inv(s: Body, loose: bool) -> bool {
    &&& forall|i: int| 0 <= i < s.done.len() ==> item_ok(#[trigger] s.done[i])
    &&& s.done.len() > 0 ==> is_turn(s.done.last())
    &&& attachments_ok(s.waiting)
    &&& block_inv(s.block, loose)
    &&& s.block.kind is Some ==> !s.fresh
}

/// Reading a line keeps the block in shape; an empty line after the turn tag
/// leaves the content with an empty last line.
pub proof fn lemma_block_step_inv(b: Block, line: Seq<char>, now: Timestamp)
    requires
        block_inv(b, false),
        is_line(line),
    ensures
        block_inv(block_step(b, line, now), line.len() == 0),
        block_step(b, line, now).kind is None ==> b.kind is None,
{
    if has_prefix(line, tag_user()) {
        lemma_trimmed_field(line, tag_user().len() as int);
    }
    if has_prefix(line, tag_response()) {
        lemma_trimmed_field(line, tag_response().len() as int);
    }
    if has_prefix(line, tag_error()) {
        lemma_trimmed_field(line, tag_error().len() as int);
    }
    if b.kind is Some {
        lemma_lines_joined(b.content, line);
        lemma_lines_of_line(line);
        lemma_lines_of_shape(b.content);
        let grown = b.content + seq!['\n'] + line;
        assert(lines_of(grown) == lines_of(b.content) + seq![line]);
        assert(lines_of(grown)[0] == lines_of(b.content)[0]);
        assert forall|i: int|
            1 <= i < lines_of(grown).len() - (if line.len() == 0 {
                1int
            } else {
                0int
            }) implies (#[trigger] lines_of(grown)[i]).len() > 0 by {
            if i < lines_of(b.content).len() {
                assert(lines_of(grown)[i] == lines_of(b.content)[i]);
            }
        }
    } else if !has_prefix(line, tag_created_at()) && has_prefix(line, tag_attach()) {
        let value = value_after(line, tag_attach());
        assert(is_line(value));
        if let Some((name, mime)) = split_at_only_colon(value) {
            let k = first_colon(value);
            lemma_first_colon_bound(value);
            lemma_first_colon_bound(value.skip(k + 1));
            assert(no_colon(name));
            assert(no_colon(mime));
            lemma_trim_no_colon(name);
            lemma_trim_no_colon(mime);
            assert(is_line(name));
            assert(is_line(mime));
            lemma_trim_of_line(name);
            lemma_trim_of_line(mime);
            lemma_trim_shape(name);
            lemma_trim_shape(mime);
            let item = InteractionView::Attachment { filename: trim(name), mime_type: trim(mime) };
            assert(item_ok(item));
            let grown = b.attachments.push(item);
            assert forall|i: int| 0 <= i < grown.len() implies (#[trigger] grown[i]) is Attachment
                && item_ok(grown[i]) by {
                if i < b.attachments.len() {
                    assert(grown[i] == b.attachments[i]);
                }
            }
        }
    }
}

/// Ending a block keeps the body in shape.
pub proof fn lemma_body_close_inv(s: Body, now: Timestamp)
    requires
        body_inv(s, true),
    ensures
        body_inv(body_close(s, now), false),
        !body_close(s, now).failed ==> !s.failed,
{
    let after = body_close(s, now);
    assert(attachments_ok(block_start().attachments));
    match s.block.kind {
        Some(kind) => {
            lemma_trimmed_content(s.block.content);
            let content = trim_end(s.block.content);
            let created = match s.block.created {
                Some(t) => t,
                None => now,
            };
            let turn = turn_of(kind, content, created);
            assert(item_ok(turn));
            assert(after.done == s.done + s.waiting + s.block.attachments + seq![turn]);
            assert forall|i: int| 0 <= i < after.done.len() implies item_ok(
                #[trigger] after.done[i],
            ) by {
                if i < s.done.len() {
                    assert(after.done[i] == s.done[i]);
                } else if i < s.done.len() + s.waiting.len() {
                    assert(after.done[i] == s.waiting[i - s.done.len()]);
                } else if i < s.done.len() + s.waiting.len() + s.block.attachments.len() {
                    assert(after.done[i] == s.block.attachments[i - s.done.len()
                        - s.waiting.len()]);
                }
            }
            assert(after.done.last() == turn);
            assert(attachments_ok(after.waiting));
        },
        None => {
            let grown = s.waiting + s.block.attachments;
            assert forall|i: int| 0 <= i < grown.len() implies (#[trigger] grown[i]) is Attachment
                && item_ok(grown[i]) by {
                if i < s.waiting.len() {
                    assert(grown[i] == s.waiting[i]);
                } else {
                    assert(grown[i] == s.block.attachments[i - s.waiting.len()]);
                }
            }
        },
    }
}

/// Reading a body line keeps the body in shape.
pub proof fn lemma_body_step_inv(s: Body, line: Seq<char>, now: Timestamp)
    requires
        body_inv(s, false),
        is_line(line),
    ensures
        body_inv(body_step(s, line, now), false),
        !body_step(s, line, now).failed ==> !s.failed,
{
    if line.len() == 0 && !s.fresh {
        lemma_body_close_inv(s, now);
    } else {
        lemma_block_step_inv(s.block, line, now);
    }
}

/// Reading body lines keeps the body in shape.
pub proof fn lemma_body_scan_inv(s: Body, lines: Seq<Seq<char>>, now: Timestamp)
    requires
        body_inv(s, false),
        forall|i: int| 0 <= i < lines.len() ==> is_line(#[trigger] lines[i]),
    ensures
        body_inv(body_scan(s, lines, now), false),
    decreases lines.len(),
{
    if lines.len() > 0 {
        assert forall|i: int| 0 <= i < lines.drop_last().len() implies is_line(
            #[trigger] lines.drop_last()[i],
        ) by {
            assert(lines.drop_last()[i] == lines[i]);
        }
        lemma_body_scan_inv(s, lines.drop_last(), now);
        lemma_body_step_inv(body_scan(s, lines.drop_last(), now), lines.last(), now);
    }
}

/// Whatever the reader accepts, it gives a log in the shape that it leaves
/// logs in.
pub proof fn lemma_parse_gives_canonical(text: Seq<char>, now: Timestamp)
    ensures
        parse_spec(text, now) matches Some(log) ==> canonical(log),
{
    let lines = lines_of(text);
    lemma_lines_of_shape(text);
    lemma_lines_of_shape(trim(text));
    lemma_header_start_inv();
    let k = header_end(lines);
    let (h, b) = if k >= 0 {
        lemma_header_end_bound(lines, 0);
        let head = lines.take(k + 1);
        let body = lines.skip(k + 2);
        lemma_header_scan_inv(header_start(), head);
        assert(attachments_ok(block_start().attachments));
        assert(body_inv(body_start(), false));
        assert forall|i: int| 0 <= i < body.drop_last().len() implies is_line(
            #[trigger] body.drop_last()[i],
        ) by {
            assert(body.drop_last()[i] == lines[k + 2 + i]);
        }
        lemma_body_scan_inv(body_start(), body.drop_last(), now);
        let st = body_scan(body_start(), body.drop_last(), now);
        assert(body.last() == lines[lines.len() - 1]);
        lemma_block_step_inv(st.block, body.last(), now);
        let fed = body_feed(st, body.last(), now);
        assert(body_inv(fed, true)) by {
            if body.last().len() > 0 {
                assert(text_pre(fed.block.content, false) ==> text_pre(fed.block.content, true));
            }
        }
        lemma_body_close_inv(fed, now);
        (header_scan(header_start(), head), body_read(body, now))
    } else {
        lemma_header_scan_inv(header_start(), lines_of(trim(text)));
        (header_scan(header_start(), lines_of(trim(text))), body_start())
    };
    if let Some(log) = assemble(h, b) {
        if let Some(prompt) = h.prompt {
            lemma_trimmed_content(prompt);
            let cut = lines_of(trim_end(prompt));
            assert forall|i: int| 1 <= i < cut.len() implies !has_prefix(
                #[trigger] cut[i],
                tag_mark(),
            ) by {
                if has_prefix(cut[i], tag_mark()) {
                    lemma_prefix_of_prefix(lines_of(prompt)[i], cut[i], tag_mark());
                }
            }
        }
        assert(canonical(log));
    }
}

/// Where the header ends, the body follows.
pub proof fn lemma_header_end_bound(lines: Seq<Seq<char>>, from: int)
    requires
        0 <= from,
    ensures
        header_end_from(lines, from) >= 0 ==> from <= header_end_from(lines, from)
            && header_end_from(lines, from) + 2 < lines.len(),
    decreases lines.len() - from,
{
    if from + 2 < lines.len() && !body_follows(lines, from) {
        lemma_header_end_bound(lines, from + 1);
    }
}

/// What was read reads back: a log that the reader gave for some text, and
/// whose identifier and times print as texts that read back, is written as a
/// text that the reader gives the same log for, whatever the clock says.
pub proof fn lemma_parse_format_parse(text: Seq<char>, now: Timestamp, later: Timestamp)
    requires
        parse_spec(text, now) is Some,
        prints_well(parse_spec(text, now)->Some_0),
    ensures
        parse_spec(format_spec(parse_spec(text, now)->Some_0), later) == parse_spec(text, now),
{
    lemma_parse_gives_canonical(text, now);
    lemma_format_parse_roundtrip(parse_spec(text, now)->Some_0, later);
}

} // verus!
