//! Chat messages and the incremental server-sent-events decoder.
use vstd::prelude::*;

verus! {

#[derive(Debug, Clone, Copy, PartialEq, Eq, Structural)]
pub enum ChatRole {
    System,
    User,
    Assistant,
}

#[derive(Debug, PartialEq, Eq)]
pub struct ChatMessage {
    pub role: ChatRole,
    pub content: String,
}

impl Clone for ChatMessage {
    fn clone(&self) -> (copy: Self)
        ensures
            copy == *self,
    {
        ChatMessage { role: self.role, content: self.content.clone() }
    }
}

impl ChatMessage {
    pub open spec fn view_pair(self) -> (ChatRole, Seq<char>) {
        (self.role, self.content@)
    }
}

/// The role and text of each message.
pub open spec fn messages_view(messages: Seq<ChatMessage>) -> Seq<(ChatRole, Seq<char>)> {
    Seq::new(messages.len(), |i: int| messages[i].view_pair())
}

} // verus!

verus! {

// ---------------------------------------------------------------------------
// Server-sent events
// ---------------------------------------------------------------------------

/// The text of bytes decoded as UTF-8, each invalid sequence replaced by U+FFFD.
pub uninterp spec fn utf8_lossy_spec(bytes: Seq<u8>) -> Seq<char>;

/// `String::from_utf8_lossy`: the decoded text; for valid UTF-8, exactly its characters.
#[verifier::external_body]
fn utf8_lossy(bytes: &[u8]) -> (text: String)
    ensures
        text@ == utf8_lossy_spec(bytes@),
        vstd::utf8::valid_utf8(bytes@) ==> text@ == vstd::utf8::decode_utf8(bytes@),
{
    String::from_utf8_lossy(bytes).into_owned()
}

/// Every `\r\n` replaced by `\n`, matches taken left to right (`str::replace`).
pub open spec fn replace_crlf(s: Seq<char>) -> Seq<char>
    decreases s.len(),
{
    if s.len() < 2 {
        s
    } else if s[0] == '\r' && s[1] == '\n' {
        seq!['\n'] + replace_crlf(s.skip(2))
    } else {
        seq![s[0]] + replace_crlf(s.drop_first())
    }
}

/// Index of the first `\n\n`, or at least `s.len() - 1` when there is none.
pub open spec fn first_blank(s: Seq<char>) -> int
    decreases s.len(),
{
    if s.len() < 2 {
        s.len() as int
    } else if s[0] == '\n' && s[1] == '\n' {
        0
    } else {
        1 + first_blank(s.drop_first())
    }
}

/// One trailing `\r` removed.
pub open spec fn strip_cr(line: Seq<char>) -> Seq<char> {
    if line.len() > 0 && line.last() == '\r' {
        line.drop_last()
    } else {
        line
    }
}

/// The lines of a text (`str::lines`): split after each `\n`, the `\n` and a
/// `\r` before it dropped, no line after a final `\n`.
pub open spec fn lines_of(s: Seq<char>) -> Seq<Seq<char>>
    decreases s.len(),
{
    if s.len() == 0 {
        Seq::empty()
    } else {
        let f = crate::text::first_in(s, seq!['\n']);
        if f >= s.len() {
            seq![s]
        } else {
            proof {
                crate::text::lemma_first_in_bounds(s, seq!['\n']);
            }
            seq![strip_cr(s.take(f))] + lines_of(s.skip(f + 1))
        }
    }
}

pub open spec fn data_prefix() -> Seq<char> {
    seq!['d', 'a', 't', 'a', ':']
}

/// The `data:` fields of lines, each without the field name and leading whitespace.
pub open spec fn data_of(lines: Seq<Seq<char>>) -> Seq<Seq<char>>
    decreases lines.len(),
{
    if lines.len() == 0 {
        Seq::empty()
    } else {
        let rest = data_of(lines.drop_last());
        if data_prefix().is_prefix_of(lines.last()) {
            rest.push(crate::text::trim_start(lines.last().skip(5)))
        } else {
            rest
        }
    }
}

/// The data of one event block: its data fields joined by `\n`.
pub open spec fn block_data(block: Seq<char>) -> Seq<char> {
    crate::text::joined(data_of(lines_of(block)), seq!['\n'])
}

/// The events of every complete block (ended by a blank line), in order,
/// skipping blocks without data, and the unfinished rest.
pub open spec fn drain_events(buffer: Seq<char>) -> (Seq<Seq<char>>, Seq<char>)
    decreases buffer.len(),
{
    let b = first_blank(buffer);
    if b + 1 >= buffer.len() {
        (Seq::empty(), buffer)
    } else {
        proof {
            lemma_first_blank_bounds(buffer);
        }
        let rest = drain_events(buffer.skip(b + 2));
        let data = block_data(buffer.take(b));
        (if data.len() > 0 { seq![data] + rest.0 } else { rest.0 }, rest.1)
    }
}

pub proof fn lemma_first_blank_bounds(s: Seq<char>)
    ensures
        0 <= first_blank(s),
        first_blank(s) + 1 < s.len() ==> s[first_blank(s)] == '\n' && s[first_blank(s) + 1] == '\n',
    decreases s.len(),
{
    if s.len() >= 2 && !(s[0] == '\n' && s[1] == '\n') {
        lemma_first_blank_bounds(s.drop_first());
    }
}

/// What one chunk does to a decoder holding `pending`: the events it
/// completes and the text left pending.
pub open spec fn decode_step(pending: Seq<char>, text: Seq<char>) -> (Seq<Seq<char>>, Seq<char>) {
    drain_events(replace_crlf(pending + text))
}

proof fn lemma_no_cr(s: Seq<char>)
    requires
        !s.contains('\r'),
    ensures
        replace_crlf(s) == s,
    decreases s.len(),
{
    if s.len() >= 2 {
        assert(s[0] != '\r') by {
            if s[0] == '\r' {
                assert(s.contains(s[0]));
            }
        }
        assert forall|c: char| s.drop_first().contains(c) implies s.contains(c) by {
            let i = choose|i: int| 0 <= i < s.drop_first().len() && #[trigger] s.drop_first()[i] == c;
            assert(s[i + 1] == c);
        }
        lemma_no_cr(s.drop_first());
        assert(seq![s[0]] + s.drop_first() =~= s);
    }
}

proof fn lemma_first_blank_extend(x: Seq<char>, t: Seq<char>)
    requires
        first_blank(x) + 1 < x.len(),
    ensures
        first_blank(x + t) == first_blank(x),
    decreases x.len(),
{
    let y = x + t;
    assert(y[0] == x[0] && y[1] == x[1]);
    if !(x[0] == '\n' && x[1] == '\n') {
        assert(y.drop_first() =~= x.drop_first() + t);
        lemma_first_blank_extend(x.drop_first(), t);
    }
}

proof fn lemma_drain_append(x: Seq<char>, t: Seq<char>)
    ensures
        ({
            let first = drain_events(x);
            let second = drain_events(first.1 + t);
            drain_events(x + t) == (first.0 + second.0, second.1)
        }),
    decreases x.len(),
{
    let b = first_blank(x);
    if b + 1 >= x.len() {
        assert(drain_events(x).0 + drain_events(x + t).0 =~= drain_events(x + t).0);
    } else {
        lemma_first_blank_bounds(x);
        lemma_first_blank_extend(x, t);
        let y = x + t;
        assert(y.take(b) =~= x.take(b));
        assert(y.skip(b + 2) =~= x.skip(b + 2) + t);
        lemma_drain_append(x.skip(b + 2), t);
        let inner = drain_events(x.skip(b + 2));
        let second = drain_events(inner.1 + t);
        let data = block_data(x.take(b));
        if data.len() > 0 {
            assert(seq![data] + (inner.0 + second.0) =~= (seq![data] + inner.0) + second.0);
        }
    }
}

proof fn lemma_decode_concat(a: Seq<u8>, b: Seq<u8>)
    requires
        vstd::utf8::valid_utf8(a),
        vstd::utf8::valid_utf8(b),
    ensures
        vstd::utf8::valid_utf8(a + b),
        vstd::utf8::decode_utf8(a + b) == vstd::utf8::decode_utf8(a) + vstd::utf8::decode_utf8(b),
    decreases a.len(),
{
    vstd::utf8::valid_utf8_concat(a, b);
    if a.len() == 0 {
        assert(a + b =~= b);
        assert(vstd::utf8::decode_utf8(a) =~= Seq::<char>::empty());
        assert(vstd::utf8::decode_utf8(a) + vstd::utf8::decode_utf8(b) =~= vstd::utf8::decode_utf8(b));
    } else {
        let rest = vstd::utf8::pop_first_scalar(a);
        let n = vstd::utf8::length_of_first_scalar(a);
        assert(1 <= n <= a.len());
        assert((a + b)[0] == a[0]);
        assert(n >= 2 ==> (a + b)[1] == a[1]);
        assert(n >= 3 ==> (a + b)[2] == a[2]);
        assert(n >= 4 ==> (a + b)[3] == a[3]);
        assert(vstd::utf8::length_of_first_scalar(a + b) == n);
        assert(vstd::utf8::decode_first_scalar(a + b) == vstd::utf8::decode_first_scalar(a));
        assert(vstd::utf8::pop_first_scalar(a + b) =~= rest + b);
        lemma_decode_concat(rest, b);
        assert(vstd::utf8::decode_utf8(a + b) =~= vstd::utf8::decode_utf8(a) + vstd::utf8::decode_utf8(b));
    }
}

/// Where a stream is cut into chunks does not change what is decoded: from
/// the same pending text without `\r`, feeding two chunks of valid UTF-8
/// without `\r` one after the other completes the same events, in order,
/// and leaves the same pending text as feeding them joined.
pub proof fn lemma_chunking_keeps_events(pending: Seq<char>, a: Seq<u8>, b: Seq<u8>)
    requires
        vstd::utf8::valid_utf8(a),
        vstd::utf8::valid_utf8(b),
        !pending.contains('\r'),
        !vstd::utf8::decode_utf8(a).contains('\r'),
        !vstd::utf8::decode_utf8(b).contains('\r'),
    ensures
        vstd::utf8::valid_utf8(a + b),
        ({
            let first = decode_step(pending, vstd::utf8::decode_utf8(a));
            let second = decode_step(first.1, vstd::utf8::decode_utf8(b));
            decode_step(pending, vstd::utf8::decode_utf8(a + b)) == (first.0 + second.0, second.1)
        }),
{
    lemma_decode_concat(a, b);
    let sa = vstd::utf8::decode_utf8(a);
    let sb = vstd::utf8::decode_utf8(b);
    lemma_no_cr_join(pending, sa);
    lemma_no_cr(pending + sa);
    let first = drain_events(pending + sa);
    lemma_drain_rest_no_cr(pending + sa);
    lemma_no_cr_join(first.1, sb);
    lemma_no_cr(first.1 + sb);
    lemma_no_cr_join(pending + sa, sb);
    lemma_no_cr(pending + sa + sb);
    assert(pending + (sa + sb) =~= (pending + sa) + sb);
    lemma_drain_append(pending + sa, sb);
}

proof fn lemma_no_cr_join(x: Seq<char>, y: Seq<char>)
    requires
        !x.contains('\r'),
        !y.contains('\r'),
    ensures
        !(x + y).contains('\r'),
{
    if (x + y).contains('\r') {
        let i = choose|i: int| 0 <= i < (x + y).len() && #[trigger] (x + y)[i] == '\r';
        if i < x.len() {
            assert(x[i] == '\r');
            assert(x.contains('\r'));
        } else {
            assert(y[i - x.len()] == '\r');
            assert(y.contains('\r'));
        }
    }
}

proof fn lemma_drain_rest_no_cr(x: Seq<char>)
    requires
        !x.contains('\r'),
    ensures
        !drain_events(x).1.contains('\r'),
    decreases x.len(),
{
    let b = first_blank(x);
    if b + 1 < x.len() {
        lemma_first_blank_bounds(x);
        assert forall|c: char| x.skip(b + 2).contains(c) implies x.contains(c) by {
            let i = choose|i: int| 0 <= i < x.skip(b + 2).len() && #[trigger] x.skip(b + 2)[i] == c;
            assert(x[i + b + 2] == c);
        }
        lemma_drain_rest_no_cr(x.skip(b + 2));
    }
}

/// Decodes a stream of server-sent events chunk by chunk.
pub struct SseDecoder {
    buffer: Vec<char>,
}

impl SseDecoder {
    /// The text received but not yet part of a complete event.
    pub closed spec fn pending(&self) -> Seq<char> {
        self.buffer@
    }

    pub fn new() -> (decoder: SseDecoder)
        ensures
            decoder.pending() == Seq::<char>::empty(),
    {
        SseDecoder { buffer: Vec::new() }
    }

    /// Feeds one chunk and returns the data of every event it completes.
    pub fn push(&mut self, bytes: &[u8]) -> (events: Vec<String>)
        ensures
            crate::tui::strings_view(events@) == drain_events(replace_crlf(old(self).pending() + utf8_lossy_spec(bytes@))).0,
            final(self).pending() == drain_events(replace_crlf(old(self).pending() + utf8_lossy_spec(bytes@))).1,
            vstd::utf8::valid_utf8(bytes@) ==> utf8_lossy_spec(bytes@) == vstd::utf8::decode_utf8(bytes@),
    {
        let text = utf8_lossy(bytes);
        let mut combined: Vec<char> = Vec::new();
        std::mem::swap(&mut combined, &mut self.buffer);
        crate::text::append_chars(&mut combined, &crate::text::chars_of(text.as_str()));
        let normalized = replace_crlf_chars(&combined);
        let ghost all = normalized@;
        let mut events: Vec<String> = Vec::new();
        let mut start: usize = 0;
        proof {
            assert(all.skip(0) == all);
        }
        loop
            invariant
                normalized@ == all,
                all == replace_crlf(old(self).pending() + utf8_lossy_spec(bytes@)),
                vstd::utf8::valid_utf8(bytes@) ==> utf8_lossy_spec(bytes@) == vstd::utf8::decode_utf8(bytes@),
                start <= all.len(),
                drain_events(all).0 == crate::tui::strings_view(events@) + drain_events(all.skip(start as int)).0,
                drain_events(all).1 == drain_events(all.skip(start as int)).1,
            decreases all.len() - start,
        {
            match find_blank_line(&normalized, start) {
                None => {
                    proof {
                        assert(drain_events(all.skip(start as int)).0 =~= Seq::<Seq<char>>::empty());
                        assert(crate::tui::strings_view(events@) + Seq::<Seq<char>>::empty() =~= crate::tui::strings_view(events@));
                    }
                    self.buffer = crate::text::slice_chars(&normalized, start, normalized.len());
                    proof {
                        assert(self.buffer@ =~= all.skip(start as int));
                    }
                    return events;
                },
                Some(b) => {
                    let block = crate::text::slice_chars(&normalized, start, b);
                    let data = block_data_chars(&block);
                    let ghost t = all.skip(start as int);
                    proof {
                        assert(block@ =~= t.take(b - start));
                        assert(t.skip(b - start + 2) =~= all.skip(b + 2));
                    }
                    let ghost before = crate::tui::strings_view(events@);
                    if data.len() > 0 {
                        events.push(crate::text::string_from_chars(&data));
                        proof {
                            assert(crate::tui::strings_view(events@) =~= before.push(data@));
                            assert(before.push(data@) + drain_events(all.skip(b + 2)).0 =~= before + (seq![data@] + drain_events(all.skip(b + 2)).0));
                        }
                    }
                    proof {
                        assert(b + 2 <= normalized.len());
                    }
                    start = b + 2;
                },
            }
        }
    }
}

/// `replace_crlf` over characters.
pub fn replace_crlf_chars(s: &[char]) -> (out: Vec<char>)
    ensures
        out@ == replace_crlf(s@),
{
    let mut out: Vec<char> = Vec::new();
    let mut i: usize = 0;
    proof {
        assert(s@.skip(0) == s@);
    }
    while i < s.len()
        invariant
            i <= s@.len(),
            replace_crlf(s@) == out@ + replace_crlf(s@.skip(i as int)),
        decreases s@.len() - i,
    {
        let ghost t = s@.skip(i as int);
        if i + 1 < s.len() && s[i] == '\r' && s[i + 1] == '\n' {
            out.push('\n');
            proof {
                assert(t.skip(2) == s@.skip(i + 2));
                assert(out@ + replace_crlf(s@.skip(i + 2)) =~= out@.drop_last() + (seq!['\n'] + replace_crlf(t.skip(2))));
            }
            i += 2;
        } else {
            out.push(s[i]);
            proof {
                assert(t.drop_first() == s@.skip(i + 1));
                assert(out@ + replace_crlf(s@.skip(i + 1)) =~= out@.drop_last() + (seq![s@[i as int]] + replace_crlf(t.drop_first())));
            }
            i += 1;
        }
    }
    proof {
        assert(out@ + Seq::<char>::empty() =~= out@);
    }
    out
}

/// The index of the first `\n\n` at or after `start`.
pub fn find_blank_line(s: &[char], start: usize) -> (r: Option<usize>)
    requires
        start <= s@.len(),
    ensures
        match r {
            Some(b) => start <= b && b + 1 < s@.len() && b == start + first_blank(s@.skip(start as int)),
            None => first_blank(s@.skip(start as int)) + 1 >= s@.skip(start as int).len(),
        },
{
    let mut i = start;
    while i < s.len() && s.len() - i >= 2
        invariant
            start <= i <= s@.len(),
            first_blank(s@.skip(start as int)) == (i - start) + first_blank(s@.skip(i as int)),
        decreases s@.len() - i,
    {
        if s[i] == '\n' && s[i + 1] == '\n' {
            return Some(i);
        }
        proof {
            assert(s@.skip(i as int).drop_first() == s@.skip(i + 1));
        }
        i += 1;
    }
    None
}

pub proof fn lemma_lines_step(s: Seq<char>, start: int, j: int)
    requires
        0 <= start <= j < s.len(),
        j - start == crate::text::first_in(s.subrange(start, s.len() as int), seq!['\n']),
    ensures
        lines_of(s.subrange(start, s.len() as int)) == seq![strip_cr(s.subrange(start, j))]
            + lines_of(s.subrange(j + 1, s.len() as int)),
{
    let t = s.subrange(start, s.len() as int);
    assert(t.take(j - start) == s.subrange(start, j));
    assert(t.skip(j - start + 1) == s.subrange(j + 1, s.len() as int));
}

/// `lines_of` over characters.
pub fn lines_chars(s: &[char]) -> (out: Vec<Vec<char>>)
    ensures
        crate::text::pieces(out@) == lines_of(s@),
{
    let mut out: Vec<Vec<char>> = Vec::new();
    let mut start: usize = 0;
    let newline: [char; 1] = ['\n'];
    proof {
        assert(s@.subrange(0, s@.len() as int) == s@);
        assert(newline@ =~= seq!['\n']);
    }
    while start < s.len()
        invariant
            newline@ == seq!['\n'],
            start <= s@.len(),
            lines_of(s@) == crate::text::pieces(out@) + lines_of(s@.subrange(start as int, s@.len() as int)),
        decreases s@.len() - start,
    {
        let j = crate::text::position_in(s, start, &newline);
        let ghost before = crate::text::pieces(out@);
        if j == s.len() {
            let line = crate::text::slice_chars(s, start, j);
            out.push(line);
            proof {
                let t = s@.subrange(start as int, s@.len() as int);
                assert(lines_of(t) == seq![t]);
                assert(crate::text::pieces(out@) =~= before.push(t));
                assert(s@.subrange(s@.len() as int, s@.len() as int) =~= Seq::<char>::empty());
                assert(before + seq![t] =~= crate::text::pieces(out@) + Seq::<Seq<char>>::empty());
            }
            start = j;
        } else {
            let mut line = crate::text::slice_chars(s, start, j);
            if line.len() > 0 && line[line.len() - 1] == '\r' {
                line.pop();
            }
            proof {
                assert(line@ =~= strip_cr(s@.subrange(start as int, j as int)));
            }
            out.push(line);
            proof {
                lemma_lines_step(s@, start as int, j as int);
                assert(crate::text::pieces(out@) =~= before.push(line@));
                assert(before.push(line@) + lines_of(s@.subrange(j + 1, s@.len() as int)) =~= before + (seq![line@]
                    + lines_of(s@.subrange(j + 1, s@.len() as int))));
            }
            start = j + 1;
        }
    }
    proof {
        assert(s@.subrange(start as int, s@.len() as int) =~= Seq::<char>::empty());
        assert(crate::text::pieces(out@) + Seq::<Seq<char>>::empty() =~= crate::text::pieces(out@));
    }
    out
}

/// `block_data` over characters.
pub fn block_data_chars(block: &[char]) -> (data: Vec<char>)
    ensures
        data@ == block_data(block@),
{
    let lines = lines_chars(block);
    let ghost ls = crate::text::pieces(lines@);
    let mut fields: Vec<Vec<char>> = Vec::new();
    for i in 0..lines.len()
        invariant
            ls == crate::text::pieces(lines@),
            crate::text::pieces(fields@) == data_of(ls.take(i as int)),
    {
        proof {
            assert(ls.take(i + 1).drop_last() == ls.take(i as int));
            assert(ls.take(i + 1).last() == lines@[i as int]@);
        }
        if crate::text::starts_with(&lines[i], &['d', 'a', 't', 'a', ':']) {
            let rest = crate::text::slice_chars(&lines[i], 5, lines[i].len());
            let field = crate::text::trimmed_start(&rest);
            let ghost before = crate::text::pieces(fields@);
            fields.push(field);
            proof {
                assert(rest@ =~= lines@[i as int]@.skip(5));
                assert(crate::text::pieces(fields@) =~= before.push(field@));
            }
        }
    }
    proof {
        assert(ls.take(lines@.len() as int) == ls);
    }
    let mut data: Vec<char> = Vec::new();
    let ghost fs = crate::text::pieces(fields@);
    for k in 0..fields.len()
        invariant
            fs == crate::text::pieces(fields@),
            data@ == crate::text::joined(fs.take(k as int), seq!['\n']),
    {
        proof {
            assert(fs.take(k + 1).drop_last() == fs.take(k as int));
            assert(fs.take(k + 1).last() == fields@[k as int]@);
        }
        if k > 0 {
            data.push('\n');
        }
        let ghost before = data@;
        crate::text::append_chars(&mut data, &fields[k]);
        proof {
            if k == 0 {
                assert(fs.take(1) =~= seq![fields@[0]@]);
                assert(data@ =~= fields@[0]@);
            }
        }
    }
    proof {
        assert(fs.take(fields@.len() as int) == fs);
    }
    data
}

/// The chat completions address of a local llama-server.
pub fn chat_endpoint(server: crate::network::SocketAddress) -> (url: String)
    ensures
        url@ == "http://"@ + crate::addresses::socket_text_spec(server) + "/v1/chat/completions"@,
{
    let address = crate::addresses::socket_text(server);
    crate::text::concat3("http://", address.as_str(), "/v1/chat/completions")
}

} // verus!
