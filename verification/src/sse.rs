//! A small Server-Sent Events parser over a byte stream: enough of the spec for
//! the control plane's session stream (`: connected` comment first, then
//! `event: message` + `data: {json}` frames, blank-line separated). Used by the
//! WebSocket bridge, which needs the events as values, not bytes.

use crate::text::{before_first, join, joined, pieces, same, split, split_once, strip_prefix};
use vstd::prelude::*;
use vstd::utf8::{decode_utf8, valid_utf8};

verus! {

// ---- what the outside does ---------------------------------------------------

#[verifier::external_type_specification]
#[verifier::external_body]
pub struct ExBytesMut(bytes::BytesMut);

/// The bytes that a `bytes::BytesMut` holds.
pub uninterp spec fn buffered(buf: bytes::BytesMut) -> Seq<u8>;

/// The text that `String::from_utf8_lossy` makes of some bytes.
pub uninterp spec fn lossy_text(bytes: Seq<u8>) -> Seq<char>;

/// `bytes::BytesMut::new`: it holds nothing.
#[verifier::external_body]
fn empty_buffer() -> (r: bytes::BytesMut)
    ensures
        buffered(r) == Seq::<u8>::empty(),
{
    bytes::BytesMut::new()
}

/// `bytes::BytesMut::extend_from_slice`: the bytes are appended. It panics where
/// the length would overflow.
#[verifier::external_body]
fn append(buf: &mut bytes::BytesMut, chunk: &[u8])
    requires
        buffered(*old(buf)).len() + chunk@.len() <= isize::MAX,
    ensures
        buffered(*final(buf)) == buffered(*old(buf)) + chunk@,
{
    buf.extend_from_slice(chunk)
}

/// `bytes::BytesMut::split_to`: the first `at` bytes are taken out and returned.
/// It panics where there are not so many.
#[verifier::external_body]
fn take_front(buf: &mut bytes::BytesMut, at: usize) -> (r: bytes::BytesMut)
    requires
        at <= buffered(*old(buf)).len(),
    ensures
        buffered(r) == buffered(*old(buf)).take(at as int),
        buffered(*final(buf)) == buffered(*old(buf)).skip(at as int),
{
    buf.split_to(at)
}

/// `bytes::BytesMut` by its `Deref`: the bytes it holds.
#[verifier::external_body]
fn contents(buf: &bytes::BytesMut) -> (r: &[u8])
    ensures
        r@ == buffered(*buf),
{
    buf
}

/// `String::from_utf8_lossy`: valid UTF-8 is decoded; what is not valid is
/// replaced by U+FFFD.
#[verifier::external_body]
pub(crate) fn lossy(bytes: &[u8]) -> (r: String)
    ensures
        r@ == lossy_text(bytes@),
        valid_utf8(bytes@) ==> r@ == decode_utf8(bytes@),
{
    String::from_utf8_lossy(bytes).into_owned()
}

/// The text that some bytes are read as: what they encode, where they are valid
/// UTF-8.
pub open spec fn read_as(bytes: Seq<u8>) -> Seq<char> {
    if valid_utf8(bytes) {
        decode_utf8(bytes)
    } else {
        lossy_text(bytes)
    }
}

// ---- frames ------------------------------------------------------------------

/// One frame's meaningful parts. Comments and unknown fields are dropped.
#[derive(Debug, PartialEq, Eq)]
pub struct SseFrame {
    pub event: Option<String>,
    pub data: String,
}

#[verifier::ext_equal]
pub struct SseFrameView {
    pub event: Option<Seq<char>>,
    pub data: Seq<char>,
}

impl View for SseFrame {
    type V = SseFrameView;

    open spec fn view(&self) -> SseFrameView {
        SseFrameView { event: self.event.deep_view(), data: self.data@ }
    }
}

impl DeepView for SseFrame {
    type V = SseFrameView;

    open spec fn deep_view(&self) -> SseFrameView {
        self@
    }
}

/// A line without the carriage return that belongs to its line ending.
pub open spec fn without_cr(line: Seq<char>) -> Seq<char> {
    if line.len() > 0 && line.last() == '\r' {
        line.drop_last()
    } else {
        line
    }
}

/// The lines of a text. A line ends with a line feed, before which one carriage
/// return may stand; the last line needs no ending.
pub open spec fn lines_of(text: Seq<char>) -> Seq<Seq<char>> {
    let parts = pieces(text, '\n');
    let ended = parts.drop_last().map_values(|line: Seq<char>| without_cr(line));
    if parts.last().len() == 0 {
        ended
    } else {
        ended.push(parts.last())
    }
}

/// The field of a line and its value, without the one space that may precede it.
/// A line without a colon is a field without a value.
pub open spec fn field_of(line: Seq<char>) -> (Seq<char>, Seq<char>) {
    if line.contains(':') {
        let name = before_first(line, ':');
        let rest = line.skip(name.len() as int + 1);
        (
            name,
            if rest.len() > 0 && rest[0] == ' ' {
                rest.skip(1)
            } else {
                rest
            },
        )
    } else {
        (line, Seq::empty())
    }
}

/// A line that begins with a colon is a comment.
pub open spec fn comment(line: Seq<char>) -> bool {
    line.len() > 0 && line[0] == ':'
}

/// The values of the `data` lines.
pub open spec fn data_of(lines: Seq<Seq<char>>) -> Seq<Seq<char>>
    decreases lines.len(),
{
    if lines.len() == 0 {
        Seq::empty()
    } else {
        let earlier = data_of(lines.drop_last());
        if !comment(lines.last()) && field_of(lines.last()).0 == "data"@ {
            earlier.push(field_of(lines.last()).1)
        } else {
            earlier
        }
    }
}

/// The value of the last `event` line.
pub open spec fn event_of(lines: Seq<Seq<char>>) -> Option<Seq<char>>
    decreases lines.len(),
{
    if lines.len() == 0 {
        None
    } else if !comment(lines.last()) && field_of(lines.last()).0 == "event"@ {
        Some(field_of(lines.last()).1)
    } else {
        event_of(lines.drop_last())
    }
}

/// The frame that a text holds: none, where it has no data.
pub open spec fn frame_of(text: Seq<char>) -> Option<SseFrameView> {
    let lines = lines_of(text);
    let data = data_of(lines);
    if data.len() == 0 {
        None
    } else {
        Some(SseFrameView { event: event_of(lines), data: joined(data, "\n"@) })
    }
}

/// The lines of a text.
fn lines(text: &str) -> (r: Vec<String>)
    ensures
        r.deep_view() == lines_of(text@),
{
    let mut parts = split(text, '\n');
    let ghost all = parts.deep_view();
    let last = match parts.pop() {
        Some(last) => last,
        None => String::new(),
    };
    assert(last@ == all.last());
    let mut out: Vec<String> = Vec::new();
    let n: usize = parts.len();
    assert(parts.deep_view() =~= all.drop_last());
    for i in 0..n
        invariant
            n == parts@.len(),
            parts.deep_view() == all.drop_last(),
            out.deep_view() == all.drop_last().take(i as int).map_values(
                |line: Seq<char>| without_cr(line),
            ),
    {
        let ghost earlier = out.deep_view();
        let line = parts[i].as_str();
        assert(line@ == all.drop_last()[i as int]);
        out.push(ended_line(line));
        assert(out.deep_view() =~= earlier.push(without_cr(line@)));
        assert(all.drop_last().take(i + 1) =~= all.drop_last().take(i as int).push(line@));
        assert(out.deep_view() =~= all.drop_last().take(i + 1).map_values(
            |line: Seq<char>| without_cr(line),
        ));
    }
    assert(all.drop_last().take(n as int) =~= all.drop_last());
    let ghost ended = out.deep_view();
    if !last.as_str().is_empty() {
        out.push(last);
        assert(out.deep_view() =~= ended.push(all.last()));
    }
    out
}

fn ended_line(line: &str) -> (r: String)
    ensures
        r@ == without_cr(line@),
{
    let n: usize = line.unicode_len();
    if n > 0 && line.get_char(n - 1) == '\r' {
        assert(line@.subrange(0, n - 1) =~= line@.drop_last());
        line.substring_char(0, n - 1).to_owned()
    } else {
        line.to_owned()
    }
}

/// The frame that a text holds.
pub fn parse_frame(text: &str) -> (r: Option<SseFrame>)
    ensures
        r.deep_view() == frame_of(text@),
{
    let all = lines(text);
    let mut event: Option<String> = None;
    let mut data: Vec<String> = Vec::new();
    let n: usize = all.len();
    assert(data.deep_view() =~= data_of(all.deep_view().take(0)));
    for i in 0..n
        invariant
            n == all@.len(),
            all.deep_view() == lines_of(text@),
            event.deep_view() == event_of(all.deep_view().take(i as int)),
            data.deep_view() == data_of(all.deep_view().take(i as int)),
    {
        let line = all[i].as_str();
        let ghost seen = all.deep_view().take(i + 1);
        proof {
            assert(seen.drop_last() =~= all.deep_view().take(i as int));
            assert(seen.last() == line@);
        }
        let is_comment = line.unicode_len() > 0 && line.get_char(0) == ':';
        if !is_comment {
            let (field, value) = field_and_value(line);
            if same(field, "event") {
                proof {
                    event_is_not_data();
                }
                event = Some(value.to_owned());
            } else if same(field, "data") {
                let ghost earlier = data.deep_view();
                data.push(value.to_owned());
                assert(data.deep_view() =~= earlier.push(value@));
            }
        }
        assert(data.deep_view() == data_of(seen));
        assert(event.deep_view() == event_of(seen));
    }
    assert(all.deep_view().take(n as int) =~= all.deep_view());
    if data.len() == 0 {
        None
    } else {
        Some(SseFrame { event, data: join(&data, "\n") })
    }
}

proof fn event_is_not_data()
    ensures
        "event"@ != "data"@,
{
    reveal_strlit("event");
    reveal_strlit("data");
    assert("event"@.len() != "data"@.len());
}

fn field_and_value(line: &str) -> (r: (&str, &str))
    ensures
        (r.0@, r.1@) == field_of(line@),
{
    proof {
        reveal_strlit("");
        reveal_strlit(" ");
        assert(""@ =~= Seq::empty());
    }
    match split_once(line, ':') {
        Some((field, rest)) => {
            proof {
                assert(" "@ =~= seq![' ']);
                assert(rest@.len() > 0 ==> (rest@.take(1) =~= seq![rest@[0]]));
                assert(rest@.len() > 0 && rest@[0] == ' ' ==> rest@.take(1) == " "@);
                assert(rest@.len() > 0 && rest@.take(1) == " "@ ==> rest@[0] == " "@[0]);
            }
            match strip_prefix(rest, " ") {
                Some(value) => (field, value),
                None => (field, rest),
            }
        },
        None => (line, ""),
    }
}

// ---- the stream ----------------------------------------------------------------

/// A blank line: two line feeds.
pub open spec fn lf_lf(s: Seq<u8>, i: int) -> bool {
    0 <= i && i + 1 < s.len() && s[i] == 10 && s[i + 1] == 10
}

/// A blank line: two line endings with carriage returns.
pub open spec fn crlf_crlf(s: Seq<u8>, i: int) -> bool {
    0 <= i && i + 3 < s.len() && s[i] == 13 && s[i + 1] == 10 && s[i + 2] == 13 && s[i + 3] == 10
}

/// Where the first blank line from there on begins, and how long it is.
pub open spec fn blank_line(s: Seq<u8>, from: int) -> Option<(int, int)>
    decreases s.len() - from,
{
    if from >= s.len() {
        None
    } else if lf_lf(s, from) {
        Some((from, 2))
    } else if crlf_crlf(s, from) {
        Some((from, 4))
    } else {
        blank_line(s, from + 1)
    }
}

proof fn blank_line_is_inside(s: Seq<u8>, from: int)
    requires
        0 <= from,
        blank_line(s, from) is Some,
    ensures
        blank_line(s, from) matches Some((i, n)) && from <= i && 0 < n && i + n <= s.len(),
    decreases s.len() - from,
{
    if from < s.len() && !lf_lf(s, from) && !crlf_crlf(s, from) {
        blank_line_is_inside(s, from + 1);
    }
}

/// The frame between two blank lines, if it holds one, before those that follow.
pub open spec fn prepended(
    frame: Option<SseFrameView>,
    rest: Seq<SseFrameView>,
) -> Seq<SseFrameView> {
    match frame {
        Some(frame) => seq![frame] + rest,
        None => rest,
    }
}

/// The frames of a stream, in order: what ends at a blank line, where it holds
/// data.
pub open spec fn frames_in(s: Seq<u8>) -> Seq<SseFrameView>
    decreases s.len(),
    via frames_in_decreases
{
    match blank_line(s, 0) {
        None => Seq::empty(),
        Some((i, n)) => prepended(frame_of(read_as(s.take(i))), frames_in(s.skip(i + n))),
    }
}

#[via_fn]
proof fn frames_in_decreases(s: Seq<u8>) {
    if blank_line(s, 0) is Some {
        blank_line_is_inside(s, 0);
    }
}

/// What follows the last blank line.
pub open spec fn unfinished(s: Seq<u8>) -> Seq<u8>
    decreases s.len(),
    via unfinished_decreases
{
    match blank_line(s, 0) {
        None => s,
        Some((i, n)) => unfinished(s.skip(i + n)),
    }
}

#[via_fn]
proof fn unfinished_decreases(s: Seq<u8>) {
    if blank_line(s, 0) is Some {
        blank_line_is_inside(s, 0);
    }
}

/// Incremental parser: feed bytes, take complete frames.
pub struct SseParser {
    buf: bytes::BytesMut,
}

impl View for SseParser {
    /// The bytes that were fed and not yet taken as frames.
    type V = Seq<u8>;

    closed spec fn view(&self) -> Seq<u8> {
        buffered(self.buf)
    }
}

impl Default for SseParser {
    fn default() -> (r: SseParser)
        ensures
            r@ == Seq::<u8>::empty(),
    {
        SseParser { buf: empty_buffer() }
    }
}

impl SseParser {
    pub fn push(&mut self, chunk: &[u8])
        requires
            old(self)@.len() + chunk@.len() <= isize::MAX,
        ensures
            final(self)@ == old(self)@ + chunk@,
    {
        append(&mut self.buf, chunk);
    }

    /// How many bytes were fed and not yet taken as frames.
    pub fn pending(&self) -> (r: usize)
        ensures
            r == self@.len(),
    {
        contents(&self.buf).len()
    }

    /// Complete frames currently in the buffer. A frame ends at a blank line;
    /// whatever follows the last blank line is kept for the next `push`.
    pub fn frames(&mut self) -> (r: Vec<SseFrame>)
        ensures
            r.deep_view() == frames_in(old(self)@),
            final(self)@ == unfinished(old(self)@),
    {
        let ghost all = self@;
        let mut out: Vec<SseFrame> = Vec::new();
        assert(out.deep_view() + frames_in(self@) =~= frames_in(all));
        let mut end = find_blank_line(contents(&self.buf));
        while end.is_some()
            invariant
                out.deep_view() + frames_in(self@) == frames_in(all),
                unfinished(self@) == unfinished(all),
                match end {
                    Some((i, n)) => blank_line(self@, 0) == Some((i as int, n as int)),
                    None => blank_line(self@, 0) is None,
                },
            decreases
                    self@.len(),
                    if end.is_some() {
                        1int
                    } else {
                        0
                    },
        {
            let ghost before = self@;
            proof {
                blank_line_is_inside(before, 0);
            }
            if let Some((i, n)) = end {
                let front = take_front(&mut self.buf, i);
                let frame = parse_frame(lossy(contents(&front)).as_str());
                assert(before.skip(i as int).skip(n as int) =~= before.skip(i + n));
                let _ = take_front(&mut self.buf, n);
                let ghost earlier = out.deep_view();
                let ghost found = frame.deep_view();
                if let Some(frame) = frame {
                    out.push(frame);
                    assert(out.deep_view() =~= earlier.push(frame@));
                }
                assert(earlier + prepended(found, frames_in(self@)) =~= out.deep_view() + frames_in(
                    self@,
                ));
                end = find_blank_line(contents(&self.buf));
            }
        }
        assert(out.deep_view() + Seq::<SseFrameView>::empty() =~= out.deep_view());
        out
    }
}

/// Where the first blank line begins, and how long it is.
fn find_blank_line(s: &[u8]) -> (r: Option<(usize, usize)>)
    ensures
        match r {
            Some((i, n)) => blank_line(s@, 0) == Some((i as int, n as int)),
            None => blank_line(s@, 0) is None,
        },
{
    let len: usize = s.len();
    let mut i: usize = 0;
    while i < len
        invariant
            i <= len,
            len == s@.len(),
            blank_line(s@, 0) == blank_line(s@, i as int),
        decreases len - i,
    {
        if len - i > 1 && s[i] == 10 && s[i + 1] == 10 {
            return Some((i, 2));
        }
        if len - i > 3 && s[i] == 13 && s[i + 1] == 10 && s[i + 2] == 13 && s[i + 3] == 10 {
            return Some((i, 4));
        }
        i = i + 1;
    }
    None
}

// ---- laws ------------------------------------------------------------------------

/// How a stream is cut into chunks makes no difference: taking the frames of the
/// first part, and then those of what is left with the second part appended,
/// gives the frames of the whole, and leaves what the whole would leave.
pub proof fn chunks_make_no_difference(first: Seq<u8>, second: Seq<u8>)
    ensures
        frames_in(first + second) == frames_in(first) + frames_in(unfinished(first) + second),
        unfinished(first + second) == unfinished(unfinished(first) + second),
    decreases first.len(),
{
    match blank_line(first, 0) {
        None => {
            assert(frames_in(first) + frames_in(first + second) =~= frames_in(first + second));
        },
        Some((i, n)) => {
            blank_line_is_inside(first, 0);
            blank_line_stays(first, second, 0);
            let whole = first + second;
            let rest = first.skip(i + n);
            assert(whole.skip(i + n) =~= rest + second);
            assert(whole.take(i) =~= first.take(i));
            chunks_make_no_difference(rest, second);
            let frame = frame_of(read_as(first.take(i)));
            assert(prepended(frame, frames_in(rest) + frames_in(unfinished(rest) + second))
                =~= prepended(frame, frames_in(rest)) + frames_in(unfinished(rest) + second));
        },
    }
}

proof fn blank_line_stays(first: Seq<u8>, second: Seq<u8>, from: int)
    requires
        0 <= from,
        blank_line(first, from) is Some,
    ensures
        blank_line(first + second, from) == blank_line(first, from),
    decreases first.len() - from,
{
    let whole = first + second;
    blank_line_is_inside(first, from);
    assert(lf_lf(first, from) ==> lf_lf(whole, from));
    assert(crlf_crlf(first, from) ==> crlf_crlf(whole, from));
    if from < first.len() && !lf_lf(first, from) && !crlf_crlf(first, from) {
        blank_line_is_inside(first, from + 1);
        let (i, n) = blank_line(first, from + 1)->0;
        blank_line_starts_there(first, from + 1);
        assert(!lf_lf(whole, from));
        assert(!crlf_crlf(whole, from)) by {
            if crlf_crlf(whole, from) {
                assert(from + 3 >= first.len());
                assert(first[from + 1] == whole[from + 1]);
                assert(first[from + 2] == whole[from + 2]);
            }
        }
        blank_line_stays(first, second, from + 1);
    }
}

proof fn blank_line_starts_there(s: Seq<u8>, from: int)
    requires
        0 <= from,
        blank_line(s, from) is Some,
    ensures
        blank_line(s, from) matches Some((i, n)) && (n == 2 && lf_lf(s, i) || n == 4 && crlf_crlf(
            s,
            i,
        )),
    decreases s.len() - from,
{
    if from < s.len() && !lf_lf(s, from) && !crlf_crlf(s, from) {
        blank_line_starts_there(s, from + 1);
    }
}

/// A line of a field reads as the field and its value. One space behind the colon
/// belongs to neither; a line without a colon has no value.
pub proof fn a_line_reads_as_its_field(name: Seq<char>, value: Seq<char>)
    requires
        !name.contains(':'),
    ensures
        field_of(name + seq![':', ' '] + value) == (name, value),
        value.len() == 0 || value[0] != ' ' ==> field_of(name + seq![':'] + value) == (name, value),
        field_of(name) == (name, Seq::<char>::empty()),
{
    let spaced = name + seq![':', ' '] + value;
    assert(spaced[name.len() as int] == ':');
    the_name_ends_at_the_colon(name, seq![':', ' '] + value);
    assert(spaced =~= name + (seq![':', ' '] + value));
    assert(spaced.skip(name.len() as int + 1)[0] == ' ');
    assert(spaced.skip(name.len() as int + 1).skip(1) =~= value);
    let plain = name + seq![':'] + value;
    assert(plain[name.len() as int] == ':');
    the_name_ends_at_the_colon(name, seq![':'] + value);
    assert(plain =~= name + (seq![':'] + value));
    assert(plain.skip(name.len() as int + 1) =~= value);
}

proof fn the_name_ends_at_the_colon(name: Seq<char>, rest: Seq<char>)
    requires
        !name.contains(':'),
        rest.len() > 0,
        rest[0] == ':',
    ensures
        before_first(name + rest, ':') == name,
    decreases name.len(),
{
    let line = name + rest;
    if name.len() > 0 {
        assert(name[0] != ':');
        assert(line.drop_first() =~= name.drop_first() + rest);
        assert(!name.drop_first().contains(':')) by {
            if name.drop_first().contains(':') {
                let k = name.drop_first().index_of(':');
                assert(name[k + 1] == ':');
            }
        }
        the_name_ends_at_the_colon(name.drop_first(), rest);
        assert(before_first(line, ':') =~= name);
    } else {
        assert(line[0] == ':');
        assert(before_first(line, ':') =~= name);
    }
}

/// A text of lines reads as those lines, whether they end in a line feed alone or in a
/// carriage return and a line feed.
pub proof fn lines_read_back(lines: Seq<Seq<char>>)
    requires
        lines.len() > 0,
        lines.last().len() > 0,
        forall|i: int|
            0 <= i < lines.len() ==> !(#[trigger] lines[i]).contains('\n') && !lines[i].contains(
                '\r',
            ),
    ensures
        lines_of(joined(lines, seq!['\n'])) == lines,
        lines_of(joined(with_returns(lines), seq!['\n'])) == lines,
{
    crate::text::joined_pieces_come_back(lines, '\n');
    let parts = pieces(joined(lines, seq!['\n']), '\n');
    assert forall|i: int| 0 <= i < lines.len() - 1 implies without_cr(#[trigger] lines[i])
        == lines[i] by {
        if lines[i].len() > 0 {
            assert(lines[i][lines[i].len() - 1] != '\r');
        }
    }
    assert(lines_of(joined(lines, seq!['\n'])) =~= lines);
    let returned = with_returns(lines);
    assert forall|i: int| 0 <= i < returned.len() implies !(#[trigger] returned[i]).contains(
        '\n',
    ) by {
        if returned[i].contains('\n') {
            let k = returned[i].index_of('\n');
            assert(lines[i][k] == '\n');
        }
    }
    crate::text::joined_pieces_come_back(returned, '\n');
    assert forall|i: int| 0 <= i < lines.len() - 1 implies without_cr(#[trigger] returned[i])
        == lines[i] by {
        assert(returned[i] == lines[i].push('\r'));
        assert(lines[i].push('\r').drop_last() =~= lines[i]);
    }
    assert(lines_of(joined(returned, seq!['\n'])) =~= lines);
}

/// The lines with a carriage return at the end of each but the last.
pub open spec fn with_returns(lines: Seq<Seq<char>>) -> Seq<Seq<char>> {
    Seq::new(
        lines.len(),
        |i: int|
            if i < lines.len() - 1 {
                lines[i].push('\r')
            } else {
                lines[i]
            },
    )
}

/// A line more: one of data adds its value to the data, one that names the event
/// names it anew, and a comment or a line of any other field adds nothing.
pub proof fn a_line_more(lines: Seq<Seq<char>>, name: Seq<char>, value: Seq<char>)
    requires
        !name.contains(':'),
    ensures
        ({
            let more = lines.push(name + seq![':', ' '] + value);
            &&& name == "data"@ ==> data_of(more) == data_of(lines).push(value) && event_of(more)
                == event_of(lines)
            &&& name == "event"@ ==> event_of(more) == Some(value) && data_of(more) == data_of(lines)
            &&& name != "data"@ && name != "event"@ ==> data_of(more) == data_of(lines)
                && event_of(more) == event_of(lines)
        }),
        data_of(lines.push(seq![':'] + value)) == data_of(lines),
        event_of(lines.push(seq![':'] + value)) == event_of(lines),
        data_of(Seq::empty()) == Seq::<Seq<char>>::empty(),
        event_of(Seq::empty()) is None,
{
    reveal_strlit("data");
    reveal_strlit("event");
    event_is_not_data();
    a_line_reads_as_its_field(name, value);
    let line = name + seq![':', ' '] + value;
    assert(lines.push(line).drop_last() =~= lines);
    assert(lines.push(seq![':'] + value).drop_last() =~= lines);
    if name.len() > 0 {
        assert(name[0] != ':');
        assert(line[0] == name[0]);
    }
    assert((seq![':'] + value)[0] == ':');
}

/// A frame is there where a line of data is, and holds the values of all of these,
/// one to a line.
pub proof fn a_frame_holds_its_data(text: Seq<char>)
    ensures
        frame_of(text) is None <==> data_of(lines_of(text)).len() == 0,
        frame_of(text) matches Some(frame) ==> frame.data == joined(
            data_of(lines_of(text)),
            "\n"@,
        ) && frame.event == event_of(lines_of(text)),
{
}

/// A frame that is written, with an event and lines of data, reads back.
pub proof fn a_written_frame_reads_back(event: Seq<char>, data: Seq<char>)
    requires
        !event.contains('\n'),
        !event.contains('\r'),
        !data.contains('\n'),
        !data.contains('\r'),
    ensures
        frame_of("event"@ + seq![':', ' '] + event + seq!['\n'] + ("data"@ + seq![':', ' '] + data))
            == Some(SseFrameView { event: Some(event), data }),
        frame_of("data"@ + seq![':', ' '] + data) == Some(SseFrameView { event: None, data }),
{
    reveal_strlit("data");
    reveal_strlit("event");
    let first = "event"@ + seq![':', ' '] + event;
    let second = "data"@ + seq![':', ' '] + data;
    has_no_ending("event"@, event);
    has_no_ending("data"@, data);
    let both = seq![first, second];
    assert(both.drop_last() =~= seq![first]);
    assert(joined(both.drop_last(), seq!['\n']) == first);
    assert(joined(both, seq!['\n']) == first + seq!['\n'] + second);
    lines_read_back(both);
    let none = Seq::<Seq<char>>::empty();
    a_line_more(none, "event"@, event);
    assert(none.push(first) =~= seq![first]);
    a_line_more(seq![first], "data"@, data);
    assert(seq![first].push(second) =~= both);
    assert(data_of(both) =~= seq![data]);
    assert(joined(seq![data], "\n"@) == data);
    let one = seq![second];
    assert(joined(one, seq!['\n']) == second);
    lines_read_back(one);
    a_line_more(none, "data"@, data);
    assert(none.push(second) =~= one);
    assert(data_of(one) =~= seq![data]);
}

proof fn has_no_ending(name: Seq<char>, value: Seq<char>)
    requires
        name == "event"@ || name == "data"@,
        !value.contains('\n'),
        !value.contains('\r'),
    ensures
        !(name + seq![':', ' '] + value).contains('\n'),
        !(name + seq![':', ' '] + value).contains('\r'),
        !name.contains(':'),
{
    reveal_strlit("data");
    reveal_strlit("event");
    let line = name + seq![':', ' '] + value;
    let n = name.len() as int;
    assert forall|k: int| 0 <= k < line.len() implies #[trigger] line[k] != '\n' && line[k]
        != '\r' by {
        if k >= n + 2 {
            assert(line[k] == value[k - n - 2]);
        }
    }
}

/// A frame ends at the first blank line: two line feeds, or two endings of a carriage
/// return and a line feed. Nothing before it is one, and where there is none nothing
/// is taken.
pub proof fn a_frame_ends_at_the_first_blank_line(s: Seq<u8>)
    ensures
        blank_line(s, 0) matches Some((i, n)) ==> {
            &&& 0 <= i && i + n <= s.len()
            &&& n == 2 && s[i] == 10 && s[i + 1] == 10 || n == 4 && s[i] == 13 && s[i + 1] == 10
                && s[i + 2] == 13 && s[i + 3] == 10
            &&& forall|k: int| 0 <= k < i ==> !(#[trigger] lf_lf(s, k)) && !crlf_crlf(s, k)
        },
        blank_line(s, 0) is None ==> frames_in(s).len() == 0 && unfinished(s) == s && forall|k: int|
            0 <= k < s.len() ==> !(#[trigger] lf_lf(s, k)) && !crlf_crlf(s, k),
{
    nothing_before_the_blank_line(s, 0);
    if blank_line(s, 0) is Some {
        blank_line_is_inside(s, 0);
        blank_line_starts_there(s, 0);
    }
}

proof fn nothing_before_the_blank_line(s: Seq<u8>, from: int)
    requires
        0 <= from,
    ensures
        forall|k: int|
            from <= k < (match blank_line(s, from) {
                Some((i, _)) => i,
                None => s.len() as int,
            }) ==> !(#[trigger] lf_lf(s, k)) && !crlf_crlf(s, k),
    decreases s.len() - from,
{
    if from < s.len() && !lf_lf(s, from) && !crlf_crlf(s, from) {
        nothing_before_the_blank_line(s, from + 1);
    }
}

} // verus!
