//! Durable-log plumbing on plain values: the sanitized per-port log file
//! name and the timestamped, levelled log line format.  Writing the files is
//! the surrounding application's job.

use vstd::prelude::*;

use crate::text::dec_seq;
use crate::text::push_char;
use crate::text::u64_to_dec;

verus! {

/// A character a log file name keeps as it is: ASCII letters and digits,
/// `-`, `_` and `.`.
pub open spec fn keeps_char(c: char) -> bool {
    ('0' <= c && c <= '9') || ('a' <= c && c <= 'z') || ('A' <= c && c <= 'Z') || c == '-' || c
        == '_' || c == '.'
}

/// Every character mapped: kept if safe, replaced by `_` otherwise.
pub open spec fn mapped_chars(s: Seq<char>) -> Seq<char> {
    Seq::new(
        s.len(),
        |i: int|
            if keeps_char(s[i]) {
                s[i]
            } else {
                '_'
            },
    )
}

/// The number of leading underscores.
pub open spec fn lead_underscores(s: Seq<char>) -> int
    decreases s.len(),
{
    if s.len() == 0 {
        0
    } else if s[0] == '_' {
        1 + lead_underscores(s.drop_first())
    } else {
        0
    }
}

/// The number of trailing underscores.
pub open spec fn tail_underscores(s: Seq<char>) -> int
    decreases s.len(),
{
    if s.len() == 0 {
        0
    } else if s.last() == '_' {
        1 + tail_underscores(s.drop_last())
    } else {
        0
    }
}

/// The sanitized form of a name used inside a log file name: unsupported
/// characters replaced, surrounding underscores trimmed, truncated to 80
/// characters, with a fixed fallback when nothing remains.
pub open spec fn sanitize_fragment_spec(s: Seq<char>) -> Seq<char> {
    let m = mapped_chars(s);
    let f = lead_underscores(m);
    if f >= m.len() {
        "unknown-port"@
    } else {
        let core = m.subrange(f, m.len() - tail_underscores(m));
        if core.len() > 80 {
            core.take(80)
        } else {
            core
        }
    }
}

proof fn lemma_lead_underscores(s: Seq<char>, a: int)
    requires
        0 <= a <= s.len(),
        forall|k: int| 0 <= k < a ==> s[k] == '_',
        a < s.len() ==> s[a] != '_',
    ensures
        lead_underscores(s) == a,
    decreases a,
{
    if a > 0 {
        assert(s[0] == '_');
        lemma_lead_underscores(s.drop_first(), a - 1);
    } else {
        if s.len() > 0 {
            assert(s[0] != '_');
        }
    }
}

proof fn lemma_tail_underscores(s: Seq<char>, b: int)
    requires
        0 <= b <= s.len(),
        forall|k: int| s.len() - b <= k < s.len() ==> s[k] == '_',
        b < s.len() ==> s[s.len() - b - 1] != '_',
    ensures
        tail_underscores(s) == b,
    decreases b,
{
    if b > 0 {
        assert(s.last() == '_');
        assert forall|k: int| s.drop_last().len() - (b - 1) <= k < s.drop_last().len() implies s.drop_last()[k]
            == '_' by {
            assert(s[k] == '_');
        }
        lemma_tail_underscores(s.drop_last(), b - 1);
    } else {
        if s.len() > 0 {
            assert(s.last() != '_');
        }
    }
}

/// Sanitizes a port name for use inside a log file name.
pub fn sanitize_log_filename_fragment(input: &str) -> (r: String)
    ensures
        r@ == sanitize_fragment_spec(input@),
{
    let len = input.unicode_len();
    let mut mapped: Vec<char> = Vec::new();
    let mut i: usize = 0;
    while i < len
        invariant
            len == input@.len(),
            i <= len,
            mapped@ =~= mapped_chars(input@).take(i as int),
        decreases len - i,
    {
        let c = input.get_char(i);
        let keep = (c >= '0' && c <= '9') || (c >= 'a' && c <= 'z') || (c >= 'A' && c <= 'Z') || c
            == '-' || c == '_' || c == '.';
        if keep {
            mapped.push(c);
        } else {
            mapped.push('_');
        }
        proof {
            assert(mapped@ =~= mapped_chars(input@).take(i + 1));
        }
        i = i + 1;
    }
    proof {
        assert(mapped@ =~= mapped_chars(input@));
    }
    let mut f: usize = 0;
    while f < mapped.len() && mapped[f] == '_'
        invariant
            f <= mapped@.len(),
            forall|k: int| 0 <= k < f ==> mapped@[k] == '_',
        decreases mapped@.len() - f,
    {
        f = f + 1;
    }
    proof {
        lemma_lead_underscores(mapped@, f as int);
    }
    if f >= mapped.len() {
        let r = String::from_str("unknown-port");
        return r;
    }
    let mut b: usize = 0;
    while b < mapped.len() && mapped[mapped.len() - 1 - b] == '_'
        invariant
            b <= mapped@.len(),
            forall|k: int| mapped@.len() - b <= k < mapped@.len() ==> mapped@[k] == '_',
        decreases mapped@.len() - b,
    {
        b = b + 1;
    }
    proof {
        lemma_tail_underscores(mapped@, b as int);
        assert(mapped@[f as int] != '_');
        if f as int >= mapped@.len() - b {
            assert(mapped@[f as int] == '_');
        }
    }
    let end = mapped.len() - b;
    let mut out = String::new();
    let mut j: usize = f;
    let mut count: usize = 0;
    while j < end && count < 80
        invariant
            f <= j <= end,
            end == mapped@.len() - b,
            f < mapped@.len(),
            end <= mapped@.len(),
            count == j - f,
            count <= 80,
            out@ =~= mapped@.subrange(f as int, mapped@.len() - b).take(count as int),
        decreases end - j,
    {
        push_char(&mut out, mapped[j]);
        proof {
            assert(out@ =~= mapped@.subrange(f as int, mapped@.len() - b).take(count + 1));
        }
        j = j + 1;
        count = count + 1;
    }
    proof {
        let core = mapped@.subrange(f as int, mapped@.len() - b);
        if count == 80 && core.len() > 80 {
            assert(out@ =~= core.take(80));
        } else {
            assert(out@ =~= core);
        }
    }
    out
}

/// The file name of one port's durable log for one session.
pub fn port_log_file_name(session_id: u64, port_name: &str) -> (r: String)
    ensures
        r@ == "mass-production-port-session-"@ + dec_seq(session_id as nat) + "-"@
            + sanitize_fragment_spec(port_name@) + ".log"@,
{
    let mut s = String::from_str("mass-production-port-session-");
    let sid = u64_to_dec(session_id);
    s.append(sid.as_str());
    s.append("-");
    let fragment = sanitize_log_filename_fragment(port_name);
    s.append(fragment.as_str());
    s.append(".log");
    s
}

/// The characters of a message with carriage returns removed.
pub open spec fn strip_cr(s: Seq<char>) -> Seq<char>
    decreases s.len(),
{
    if s.len() == 0 {
        Seq::empty()
    } else if s.last() == '\r' {
        strip_cr(s.drop_last())
    } else {
        strip_cr(s.drop_last()).push(s.last())
    }
}

/// One timestamped, levelled log line, with carriage returns stripped from
/// the message and a trailing newline.
pub fn format_log_line(now: u64, level: &str, message: &str) -> (r: String)
    ensures
        r@ == "["@ + dec_seq(now as nat) + "]["@ + level@ + "] "@ + strip_cr(message@) + "\n"@,
{
    let mut s = String::from_str("[");
    let ts = u64_to_dec(now);
    s.append(ts.as_str());
    s.append("][");
    s.append(level);
    s.append("] ");
    let mlen = message.unicode_len();
    let mut cleaned = String::new();
    let mut i: usize = 0;
    while i < mlen
        invariant
            mlen == message@.len(),
            i <= mlen,
            cleaned@ =~= strip_cr(message@.take(i as int)),
        decreases mlen - i,
    {
        let c = message.get_char(i);
        if c != '\r' {
            push_char(&mut cleaned, c);
        }
        proof {
            let t1 = message@.take(i + 1);
            assert(t1.drop_last() =~= message@.take(i as int));
            assert(t1.last() == message@[i as int]);
            assert(cleaned@ =~= strip_cr(t1));
        }
        i = i + 1;
    }
    proof {
        assert(message@.take(mlen as int) =~= message@);
    }
    s.append(cleaned.as_str());
    s.append("\n");
    s
}

} // verus!
