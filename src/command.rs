use vstd::prelude::*;

use crate::text::{chars_of, string_of};

verus! {

/// The characters with Unicode's `White_Space` property.
pub open spec fn is_white_space(c: char) -> bool {
    let u = c as u32;
    u == 0x20 || (0x09 <= u && u <= 0x0d) || u == 0x85 || u == 0xa0 || u == 0x1680 || (0x2000
        <= u && u <= 0x200a) || u == 0x2028 || u == 0x2029 || u == 0x202f || u == 0x205f || u
        == 0x3000
}

/// Length of the run of non-whitespace characters at the start of `s`.
pub open spec fn word_len(s: Seq<char>) -> nat
    decreases s.len(),
{
    if s.len() == 0 || is_white_space(s[0]) {
        0
    } else {
        1 + word_len(s.drop_first())
    }
}

/// The whitespace-separated words of `s`, in order.
pub open spec fn words(s: Seq<char>) -> Seq<Seq<char>>
    decreases s.len(),
    via words_decreases
{
    if s.len() == 0 {
        Seq::empty()
    } else if is_white_space(s[0]) {
        words(s.drop_first())
    } else {
        seq![s.take(word_len(s) as int)] + words(s.skip(word_len(s) as int))
    }
}

#[via_fn]
proof fn words_decreases(s: Seq<char>) {
    if s.len() > 0 && !is_white_space(s[0]) {
        lemma_word_len_bound(s);
    }
}

/// A leading word is never longer than the text it starts.
pub proof fn lemma_word_len_bound(s: Seq<char>)
    ensures
        word_len(s) <= s.len(),
        s.len() > 0 && !is_white_space(s[0]) ==> word_len(s) >= 1,
    decreases s.len(),
{
    if s.len() > 0 && !is_white_space(s[0]) {
        lemma_word_len_bound(s.drop_first());
    }
}

/// The words joined with single spaces.
pub open spec fn join_words(ws: Seq<Seq<char>>) -> Seq<char>
    decreases ws.len(),
{
    if ws.len() == 0 {
        Seq::empty()
    } else if ws.len() == 1 {
        ws[0]
    } else {
        join_words(ws.drop_last()) + seq![' '] + ws.last()
    }
}

/// A line of the command interface, once read.
pub enum Command {
    /// `send <peer> <message...>`: the message is the remaining words joined
    /// by single spaces.
    Send { peer: String, message: String },
    /// `list`: show the connected peers.
    List,
    /// Anything else.
    Unknown,
}

/// Mathematical form of a [`Command`].
pub ghost enum CommandModel {
    Send { peer: Seq<char>, message: Seq<char> },
    List,
    Unknown,
}

impl View for Command {
    type V = CommandModel;

    open spec fn view(&self) -> CommandModel {
        match self {
            Command::Send { peer, message } => CommandModel::Send {
                peer: peer@,
                message: message@,
            },
            Command::List => CommandModel::List,
            Command::Unknown => CommandModel::Unknown,
        }
    }
}

/// What a line means: `send` with at least a peer and one message word, or
/// `list` as first word; anything else is unknown.
pub open spec fn command_of(line: Seq<char>) -> CommandModel {
    let w = words(line);
    if w.len() >= 3 && w[0] == seq!['s', 'e', 'n', 'd'] {
        CommandModel::Send { peer: w[1], message: join_words(w.subrange(2, w.len() as int)) }
    } else if w.len() >= 1 && w[0] == seq!['l', 'i', 's', 't'] {
        CommandModel::List
    } else {
        CommandModel::Unknown
    }
}

/// Relies on `char::is_whitespace`: true exactly for the characters with
/// Unicode's `White_Space` property.
#[verifier::external_body]
fn is_space(c: char) -> (r: bool)
    ensures
        r == is_white_space(c),
{
    c.is_whitespace()
}

/// A run of non-whitespace characters from `start` up to a whitespace
/// character or the end is exactly the leading word there.
proof fn lemma_word_run(s: Seq<char>, start: int, end: int)
    requires
        0 <= start <= end <= s.len(),
        forall|j: int| start <= j < end ==> !is_white_space(#[trigger] s[j]),
        end == s.len() || is_white_space(s[end]),
    ensures
        word_len(s.skip(start)) == end - start,
    decreases end - start,
{
    if start < end {
        lemma_word_run(s, start + 1, end);
        assert(s.skip(start).drop_first() =~= s.skip(start + 1));
    }
}

/// Splits a line into its whitespace-separated words.
pub fn tokenize(line: &str) -> (r: Vec<String>)
    ensures
        r.deep_view() == words(line@),
{
    let cs = chars_of(line);
    let n = cs.len();
    let ghost s = cs@;
    let mut toks: Vec<Vec<char>> = Vec::new();
    let ghost mut ws: Seq<Seq<char>> = Seq::empty();
    let mut i: usize = 0;
    assert(ws + words(s.skip(0)) =~= words(s)) by {
        assert(s.skip(0) =~= s);
    }
    while i < n
        invariant
            n == cs.len(),
            s == cs@,
            i <= n,
            toks@.len() == ws.len(),
            forall|j: int| 0 <= j < ws.len() ==> (#[trigger] toks@[j])@ == ws[j],
            ws + words(s.skip(i as int)) == words(s),
        decreases n - i,
    {
        if is_space(cs[i]) {
            assert(s.skip(i as int).drop_first() =~= s.skip(i + 1));
            assert(s.skip(i as int)[0] == s[i as int]);
            i = i + 1;
        } else {
            let start = i;
            let mut w: Vec<char> = Vec::new();
            while i < n && !is_space(cs[i])
                invariant
                    n == cs.len(),
                    s == cs@,
                    start <= i <= n,
                    w@ == s.subrange(start as int, i as int),
                    forall|j: int| start <= j < i ==> !is_white_space(#[trigger] s[j]),
                decreases n - i,
            {
                w.push(cs[i]);
                i = i + 1;
            }
            proof {
                lemma_word_run(s, start as int, i as int);
                let t = s.skip(start as int);
                assert(t[0] == s[start as int]);
                assert(t.take(i - start) =~= w@);
                assert(t.skip(i - start) =~= s.skip(i as int));
                assert(words(t) == seq![w@] + words(s.skip(i as int)));
                assert(ws.push(w@) + words(s.skip(i as int)) =~= ws + (seq![w@] + words(
                    s.skip(i as int),
                )));
                ws = ws.push(w@);
            }
            toks.push(w);
        }
    }
    assert(s.skip(n as int) =~= Seq::<char>::empty());
    assert(ws =~= words(s));
    let mut r: Vec<String> = Vec::new();
    let mut k: usize = 0;
    while k < toks.len()
        invariant
            k <= toks.len(),
            toks@.len() == ws.len(),
            forall|j: int| 0 <= j < ws.len() ==> (#[trigger] toks@[j])@ == ws[j],
            r@.len() == k,
            forall|j: int| 0 <= j < k ==> (#[trigger] r@[j])@ == ws[j],
        decreases toks.len() - k,
    {
        let t = string_of(&toks[k]);
        r.push(t);
        k = k + 1;
    }
    assert(r.deep_view() =~= ws);
    r
}

/// Whether `t` is exactly the word `w`, given as four characters.
fn word_is(t: &String, w0: char, w1: char, w2: char, w3: char) -> (r: bool)
    ensures
        r == (t@ == seq![w0, w1, w2, w3]),
{
    let cs = chars_of(t.as_str());
    let r = cs.len() == 4 && cs[0] == w0 && cs[1] == w1 && cs[2] == w2 && cs[3] == w3;
    if r {
        assert(cs@ =~= seq![w0, w1, w2, w3]);
    }
    r
}

/// The words of `toks` from index `from` on, joined by single spaces.
fn join_from(toks: &Vec<String>, from: usize) -> (r: String)
    requires
        from < toks.len(),
    ensures
        r@ == join_words(toks.deep_view().subrange(from as int, toks.len() as int)),
{
    let ghost dv = toks.deep_view();
    let mut msg: Vec<char> = Vec::new();
    let mut k: usize = from;
    while k < toks.len()
        invariant
            from <= k <= toks.len(),
            dv == toks.deep_view(),
            msg@ == join_words(dv.subrange(from as int, k as int)),
        decreases toks.len() - k,
    {
        let ghost before = msg@;
        if k > from {
            msg.push(' ');
        }
        let mut cs = chars_of(toks[k].as_str());
        msg.append(&mut cs);
        proof {
            let sub = dv.subrange(from as int, k + 1);
            assert(sub.drop_last() =~= dv.subrange(from as int, k as int));
            assert(sub.last() == dv[k as int]);
            if k == from {
                assert(msg@ =~= sub[0]);
            } else {
                assert(msg@ =~= before + seq![' '] + sub.last());
            }
        }
        k = k + 1;
    }
    string_of(&msg)
}

/// Reads one line of the command interface.
pub fn parse_command(line: &str) -> (c: Command)
    ensures
        c@ == command_of(line@),
{
    let toks = tokenize(line);
    proof {
        if toks.len() > 0 {
            assert(toks.deep_view()[0] == toks@[0]@);
        }
        if toks.len() > 1 {
            assert(toks.deep_view()[1] == toks@[1]@);
        }
    }
    if toks.len() >= 3 && word_is(&toks[0], 's', 'e', 'n', 'd') {
        let peer = toks[1].clone();
        let message = join_from(&toks, 2);
        Command::Send { peer, message }
    } else if toks.len() >= 1 && word_is(&toks[0], 'l', 'i', 's', 't') {
        Command::List
    } else {
        Command::Unknown
    }
}

/// What the node answers to a line of the command interface.
pub enum Reply {
    /// Log that the message would be sent to the peer.
    WouldSend { peer: String, message: String },
    /// Print the number of connected peers, then each identifier on a line.
    Peers { count: usize, ids: Vec<String> },
    /// Log an unknown-command notice.
    Unknown,
}

/// Mathematical form of a [`Reply`].
pub ghost enum ReplyModel {
    WouldSend { peer: Seq<char>, message: Seq<char> },
    Peers { count: nat, ids: Seq<Seq<char>> },
    Unknown,
}

impl View for Reply {
    type V = ReplyModel;

    open spec fn view(&self) -> ReplyModel {
        match self {
            Reply::WouldSend { peer, message } => ReplyModel::WouldSend {
                peer: peer@,
                message: message@,
            },
            Reply::Peers { count, ids } => ReplyModel::Peers {
                count: *count as nat,
                ids: ids.deep_view(),
            },
            Reply::Unknown => ReplyModel::Unknown,
        }
    }
}

/// The answer to `line` when `peers` are the identifiers of the connected
/// peers.
pub open spec fn reply_of(line: Seq<char>, peers: Seq<Seq<char>>) -> ReplyModel {
    match command_of(line) {
        CommandModel::Send { peer, message } => ReplyModel::WouldSend { peer, message },
        CommandModel::List => ReplyModel::Peers { count: peers.len(), ids: peers },
        CommandModel::Unknown => ReplyModel::Unknown,
    }
}

/// Answers one line of the command interface, given the identifiers of the
/// connected peers.
pub fn handle_command(cmd: &str, peers: &Vec<String>) -> (r: Reply)
    ensures
        r@ == reply_of(cmd@, peers.deep_view()),
{
    match parse_command(cmd) {
        Command::Send { peer, message } => Reply::WouldSend { peer, message },
        Command::List => {
            let mut ids: Vec<String> = Vec::new();
            let mut k: usize = 0;
            while k < peers.len()
                invariant
                    k <= peers.len(),
                    ids@.len() == k,
                    forall|j: int| 0 <= j < k ==> (#[trigger] ids@[j])@ == peers@[j]@,
                decreases peers.len() - k,
            {
                ids.push(peers[k].clone());
                k = k + 1;
            }
            assert(ids.deep_view() =~= peers.deep_view());
            Reply::Peers { count: peers.len(), ids }
        },
        Command::Unknown => Reply::Unknown,
    }
}

/// A line made only of whitespace, the empty line included, has no words.
pub proof fn lemma_blank_line_has_no_words(line: Seq<char>)
    requires
        forall|i: int| 0 <= i < line.len() ==> is_white_space(#[trigger] line[i]),
    ensures
        words(line) == Seq::<Seq<char>>::empty(),
    decreases line.len(),
{
    if line.len() > 0 {
        let rest = line.drop_first();
        assert forall|i: int| 0 <= i < rest.len() implies is_white_space(#[trigger] rest[i]) by {
            assert(rest[i] == line[i + 1]);
        }
        lemma_blank_line_has_no_words(rest);
    }
}

/// An empty or whitespace-only line is an unknown command, whatever the
/// connected peers.
pub proof fn lemma_blank_line_is_unknown(line: Seq<char>, peers: Seq<Seq<char>>)
    requires
        forall|i: int| 0 <= i < line.len() ==> is_white_space(#[trigger] line[i]),
    ensures
        command_of(line) == CommandModel::Unknown,
        reply_of(line, peers) == ReplyModel::Unknown,
{
    lemma_blank_line_has_no_words(line);
}

/// `send` needs a peer and at least one message word: with fewer words the
/// line is not a send command.
pub proof fn lemma_short_send_is_not_send(line: Seq<char>)
    requires
        words(line).len() < 3,
    ensures
        !(command_of(line) is Send),
{
}

} // verus!
