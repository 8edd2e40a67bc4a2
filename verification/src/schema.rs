//! Config loader: the schema of the configuration file and its verified
//! parser and serializer.
//!
//! The file is a flat key/value text: one `key: value` pair per line, the
//! key before the first colon, spaces around key and value ignored, blank
//! lines and `#` comments ignored, unknown keys ignored, the first
//! occurrence of a key winning. All six fields are mandatory and are never
//! defaulted; `smtp_port` must be a decimal 16-bit unsigned integer. A line
//! that is none of blank, comment or pair fails the parse.

use vstd::prelude::*;
use vstd::string::{StrSliceExecFns, StringExecFns};

use crate::config::{Config, ConfigView};
use crate::errors::{ConfigField, MailError, ParseFault};

verus! {

// ---------------------------------------------------------------------------
// The schema, as mathematics: lines, trimming, entries, lookup.
// ---------------------------------------------------------------------------
/// Leading spaces removed.
pub open spec fn trim_start_spec(s: Seq<char>) -> Seq<char>
    decreases s.len(),
{
    if s.len() > 0 && s[0] == ' ' {
        trim_start_spec(s.drop_first())
    } else {
        s
    }
}

/// Trailing spaces removed.
pub open spec fn trim_end_spec(s: Seq<char>) -> Seq<char>
    decreases s.len(),
{
    if s.len() > 0 && s[s.len() - 1] == ' ' {
        trim_end_spec(s.drop_last())
    } else {
        s
    }
}

/// Leading and trailing spaces removed.
pub open spec fn trim_spec(s: Seq<char>) -> Seq<char> {
    trim_end_spec(trim_start_spec(s))
}

/// The first line of the text (up to, not including, the first newline) and
/// everything after that newline.
pub open spec fn take_line(s: Seq<char>) -> (Seq<char>, Seq<char>)
    decreases s.len(),
{
    if s.len() == 0 {
        (Seq::<char>::empty(), Seq::<char>::empty())
    } else if s[0] == '\n' {
        (Seq::<char>::empty(), s.drop_first())
    } else {
        let (line, rest) = take_line(s.drop_first());
        (seq![s[0]] + line, rest)
    }
}

/// The index of the first occurrence of `c`, if any.
pub open spec fn find_first(s: Seq<char>, c: char) -> Option<int>
    decreases s.len(),
{
    if s.len() == 0 {
        None
    } else if s[0] == c {
        Some(0int)
    } else {
        match find_first(s.drop_first(), c) {
            Some(i) => Some(i + 1),
            None => None,
        }
    }
}

/// A line carrying nothing: empty or spaces only.
pub open spec fn line_blank(l: Seq<char>) -> bool {
    trim_spec(l).len() == 0
}

/// A comment line: its first non-space character is `#`.
pub open spec fn line_comment(l: Seq<char>) -> bool {
    trim_spec(l).len() > 0 && trim_spec(l)[0] == '#'
}

/// The `key: value` reading of a line: the trimmed text before the first
/// colon and the trimmed text after it.
pub open spec fn entry_of(l: Seq<char>) -> Option<(Seq<char>, Seq<char>)> {
    match find_first(l, ':') {
        Some(i) => Some(
            (trim_spec(l.subrange(0, i)), trim_spec(l.subrange(i + 1, l.len() as int))),
        ),
        None => None,
    }
}

/// A line the schema accepts: blank, comment, or a `key: value` pair.
pub open spec fn line_ok(l: Seq<char>) -> bool {
    line_blank(l) || line_comment(l) || entry_of(l) is Some
}

/// The rest of a text is shorter than the text, once a line was taken.
pub proof fn lemma_take_line_len(s: Seq<char>)
    requires
        s.len() > 0,
    ensures
        take_line(s).1.len() < s.len(),
    decreases s.len(),
{
    if s[0] != '\n' {
        if s.len() > 1 {
            lemma_take_line_len(s.drop_first());
        } else {
            assert(s.drop_first().len() == 0);
            assert(take_line(s.drop_first()).1 =~= Seq::<char>::empty());
        }
    }
}

#[via_fn]
proof fn entries_of_decreases(s: Seq<char>) {
    if s.len() > 0 {
        lemma_take_line_len(s);
    }
}

/// The key/value pairs of the text, in order, comments and blank lines
/// skipped, lines without a colon skipped (they instead fail `lines_ok`).
pub open spec fn entries_of(s: Seq<char>) -> Seq<(Seq<char>, Seq<char>)>
    decreases s.len(),
    via entries_of_decreases
{
    if s.len() == 0 {
        Seq::<(Seq<char>, Seq<char>)>::empty()
    } else {
        let (line, rest) = take_line(s);
        (if line_blank(line) || line_comment(line) {
            Seq::<(Seq<char>, Seq<char>)>::empty()
        } else {
            match entry_of(line) {
                Some(e) => seq![e],
                None => Seq::<(Seq<char>, Seq<char>)>::empty(),
            }
        }) + entries_of(rest)
    }
}

#[via_fn]
proof fn lines_ok_decreases(s: Seq<char>) {
    if s.len() > 0 {
        lemma_take_line_len(s);
    }
}

/// Every line of the text is one the schema accepts.
pub open spec fn lines_ok(s: Seq<char>) -> bool
    decreases s.len(),
    via lines_ok_decreases
{
    if s.len() == 0 {
        true
    } else {
        let (line, rest) = take_line(s);
        line_ok(line) && lines_ok(rest)
    }
}

/// The value under the first occurrence of `key`, if any.
pub open spec fn assoc(es: Seq<(Seq<char>, Seq<char>)>, key: Seq<char>) -> Option<Seq<char>>
    decreases es.len(),
{
    if es.len() == 0 {
        None
    } else if es[0].0 == key {
        Some(es[0].1)
    } else {
        assoc(es.drop_first(), key)
    }
}

// ---------------------------------------------------------------------------
// Decimal numbers.
// ---------------------------------------------------------------------------
/// A decimal digit.
pub open spec fn is_digit(c: char) -> bool {
    48 <= c as u32 && c as u32 <= 57
}

/// Every character a decimal digit.
pub open spec fn all_digits(s: Seq<char>) -> bool {
    forall|i: int| 0 <= i < s.len() ==> is_digit(#[trigger] s[i])
}

/// The value of a digit string read as a decimal number.
pub open spec fn digits_val(s: Seq<char>) -> int
    decreases s.len(),
{
    if s.len() == 0 {
        0
    } else {
        digits_val(s.drop_last()) * 10 + (s[s.len() - 1] as u32 - 48)
    }
}

/// The port a value text denotes: a non-empty digit string whose decimal
/// value fits in 16 bits, and nothing else.
pub open spec fn port_of(s: Seq<char>) -> Option<u16> {
    if s.len() > 0 && all_digits(s) && digits_val(s) <= 65535 {
        Some(digits_val(s) as u16)
    } else {
        None
    }
}

/// The decimal text of a non-negative number, most significant digit first.
pub open spec fn dec_str(n: int) -> Seq<char>
    decreases n,
{
    if n <= 9 {
        seq![((48 + (if n >= 0 { n } else { 0 })) as u8) as char]
    } else {
        dec_str(n / 10).push(((48 + n % 10) as u8) as char)
    }
}

// ---------------------------------------------------------------------------
// What the whole text denotes.
// ---------------------------------------------------------------------------
/// The configuration a text denotes, or the first fault with it: a line
/// outside the schema; then, in field order, the first mandatory field that
/// does not occur; then a port value that is not a decimal 16-bit number.
pub open spec fn parse_spec(s: Seq<char>) -> Result<ConfigView, ParseFault> {
    if !lines_ok(s) {
        Err(ParseFault::MalformedLine)
    } else {
        let es = entries_of(s);
        if assoc(es, "sender"@) is None {
            Err(ParseFault::MissingField(ConfigField::Sender))
        } else if assoc(es, "receiver"@) is None {
            Err(ParseFault::MissingField(ConfigField::Receiver))
        } else if assoc(es, "smtp_server"@) is None {
            Err(ParseFault::MissingField(ConfigField::SmtpServer))
        } else if assoc(es, "smtp_port"@) is None {
            Err(ParseFault::MissingField(ConfigField::SmtpPort))
        } else if assoc(es, "keychain_service"@) is None {
            Err(ParseFault::MissingField(ConfigField::KeychainService))
        } else if assoc(es, "keychain_account"@) is None {
            Err(ParseFault::MissingField(ConfigField::KeychainAccount))
        } else {
            match port_of(assoc(es, "smtp_port"@)->Some_0) {
                Some(port) => Ok(
                    ConfigView {
                        sender: assoc(es, "sender"@)->Some_0,
                        receiver: assoc(es, "receiver"@)->Some_0,
                        smtp_server: assoc(es, "smtp_server"@)->Some_0,
                        smtp_port: port,
                        keychain_service: assoc(es, "keychain_service"@)->Some_0,
                        keychain_account: assoc(es, "keychain_account"@)->Some_0,
                    },
                ),
                None => Err(ParseFault::InvalidPort),
            }
        }
    }
}

/// One line of the serialized schema: `key: value` and a newline.
pub open spec fn render_line(key: Seq<char>, value: Seq<char>) -> Seq<char> {
    key + ": "@ + value + "\n"@
}

/// The schema text of a configuration: the six fields in order, one line
/// each.
pub open spec fn serialize_spec(c: ConfigView) -> Seq<char> {
    render_line("sender"@, c.sender) + render_line("receiver"@, c.receiver) + render_line(
        "smtp_server"@,
        c.smtp_server,
    ) + render_line("smtp_port"@, dec_str(c.smtp_port as int)) + render_line(
        "keychain_service"@,
        c.keychain_service,
    ) + render_line("keychain_account"@, c.keychain_account)
}

// ---------------------------------------------------------------------------
// Characterization lemmas: the recursive definitions, read off a position.
// ---------------------------------------------------------------------------
/// `take_line` splits exactly at the first newline: at `i` if `i` is in
/// range, at the end if the text has none.
pub proof fn lemma_take_line_at(s: Seq<char>, i: int)
    requires
        0 <= i <= s.len(),
        forall|k: int| 0 <= k < i ==> s[k] != '\n',
        i < s.len() ==> s[i] == '\n',
    ensures
        take_line(s).0 == s.subrange(0, i),
        take_line(s).1 == if i < s.len() {
            s.subrange(i + 1, s.len() as int)
        } else {
            Seq::<char>::empty()
        },
    decreases i,
{
    if i == 0 {
        if s.len() == 0 {
            assert(take_line(s).0 =~= s.subrange(0, 0));
        } else {
            assert(s[0] == '\n');
            assert(take_line(s).0 =~= s.subrange(0, 0));
            assert(s.drop_first() =~= s.subrange(1, s.len() as int));
        }
    } else {
        assert(s[0] != '\n');
        let t = s.drop_first();
        assert(forall|k: int| 0 <= k < i - 1 ==> t[k] != '\n');
        lemma_take_line_at(t, i - 1);
        assert(seq![s[0]] + t.subrange(0, i - 1) =~= s.subrange(0, i));
        if i < s.len() {
            assert(t.subrange(i, t.len() as int) =~= s.subrange(i + 1, s.len() as int));
        }
    }
}

/// `find_first` finds exactly the first occurrence: at `i` if `i` is in
/// range, nowhere if the text has none before its end.
pub proof fn lemma_find_first_at(s: Seq<char>, c: char, i: int)
    requires
        0 <= i <= s.len(),
        forall|k: int| 0 <= k < i ==> s[k] != c,
        i < s.len() ==> s[i] == c,
    ensures
        find_first(s, c) == if i < s.len() {
            Some(i)
        } else {
            None::<int>
        },
    decreases i,
{
    if i == 0 {
    } else {
        let t = s.drop_first();
        assert(forall|k: int| 0 <= k < i - 1 ==> t[k] != c);
        lemma_find_first_at(t, c, i - 1);
    }
}

/// A digit string read as a decimal number is non-negative.
pub proof fn lemma_digits_val_nonneg(s: Seq<char>)
    requires
        all_digits(s),
    ensures
        digits_val(s) >= 0,
    decreases s.len(),
{
    if s.len() > 0 {
        assert(forall|k: int| 0 <= k < s.drop_last().len() ==> is_digit(#[trigger] s.drop_last()[k]));
        lemma_digits_val_nonneg(s.drop_last());
        assert(is_digit(s[s.len() - 1]));
    }
}

/// Reading more digits never shrinks the value.
pub proof fn lemma_digits_val_mono(s: Seq<char>, i: int)
    requires
        all_digits(s),
        0 <= i <= s.len(),
    ensures
        digits_val(s.subrange(0, i)) <= digits_val(s),
    decreases s.len() - i,
{
    if i == s.len() {
        assert(s.subrange(0, i) =~= s);
    } else {
        let p = s.subrange(0, i);
        let q = s.subrange(0, i + 1);
        assert(forall|k: int| 0 <= k < p.len() ==> is_digit(#[trigger] p[k]));
        lemma_digits_val_nonneg(p);
        assert(q.drop_last() =~= p);
        assert(is_digit(s[i]));
        assert(digits_val(q) == digits_val(p) * 10 + (s[i] as u32 - 48));
        lemma_digits_val_mono(s, i + 1);
    }
}

// ---------------------------------------------------------------------------
// The verified parser.
// ---------------------------------------------------------------------------
/// The views of a vector of parsed entries.
pub open spec fn entry_views(es: Seq<(String, String)>) -> Seq<(Seq<char>, Seq<char>)> {
    es.map_values(|e: (String, String)| (e.0@, e.1@))
}

/// The index of the first occurrence of `c` in `s[start..end]`, or `end`.
fn find_char_from(s: &str, start: usize, end: usize, c: char) -> (r: usize)
    requires
        start <= end <= s@.len(),
    ensures
        start <= r <= end,
        forall|k: int| start <= k < r ==> s@[k] != c,
        r < end ==> s@[r as int] == c,
{
    let mut j = start;
    while j < end
        invariant
            start <= j <= end <= s@.len(),
            forall|k: int| start <= k < j ==> s@[k] != c,
        decreases end - j,
    {
        if s.get_char(j) == c {
            return j;
        }
        j += 1;
    }
    j
}

/// The bounds of `s[lo..hi]` with surrounding spaces dropped: the slice
/// between them is exactly the trimmed text.
fn trim_bounds(s: &str, lo: usize, hi: usize) -> (r: (usize, usize))
    requires
        lo <= hi <= s@.len(),
    ensures
        lo <= r.0 <= r.1 <= hi,
        s@.subrange(r.0 as int, r.1 as int) == trim_spec(s@.subrange(lo as int, hi as int)),
{
    let mut a = lo;
    while a < hi && s.get_char(a) == ' '
        invariant
            lo <= a <= hi <= s@.len(),
            trim_start_spec(s@.subrange(lo as int, hi as int)) == trim_start_spec(
                s@.subrange(a as int, hi as int),
            ),
        decreases hi - a,
    {
        proof {
            assert(s@.subrange(a as int, hi as int).drop_first() =~= s@.subrange(
                a as int + 1,
                hi as int,
            ));
        }
        a += 1;
    }
    proof {
        assert(trim_start_spec(s@.subrange(a as int, hi as int)) == s@.subrange(a as int, hi as int));
    }
    let mut b = hi;
    while b > a && s.get_char(b - 1) == ' '
        invariant
            lo <= a <= b <= hi <= s@.len(),
            trim_end_spec(s@.subrange(a as int, hi as int)) == trim_end_spec(
                s@.subrange(a as int, b as int),
            ),
        decreases b,
    {
        proof {
            assert(s@.subrange(a as int, b as int).drop_last() =~= s@.subrange(
                a as int,
                b as int - 1,
            ));
        }
        b -= 1;
    }
    proof {
        assert(trim_end_spec(s@.subrange(a as int, b as int)) == s@.subrange(a as int, b as int));
    }
    (a, b)
}

/// Walks the text line by line and collects its key/value pairs, or reports
/// that some line is outside the schema.
pub fn scan_entries(s: &str) -> (r: Option<Vec<(String, String)>>)
    ensures
        match r {
            Some(es) => lines_ok(s@) && entry_views(es@) == entries_of(s@),
            None => !lines_ok(s@),
        },
{
    let n = s.unicode_len();
    let mut es: Vec<(String, String)> = Vec::new();
    let mut pos: usize = 0;
    proof {
        assert(s@.subrange(0, n as int) =~= s@);
        assert(entry_views(es@) =~= Seq::<(Seq<char>, Seq<char>)>::empty());
        assert(entry_views(es@) + entries_of(s@) =~= entries_of(s@));
    }
    while pos < n
        invariant
            pos <= n,
            n == s@.len(),
            lines_ok(s@) == lines_ok(s@.subrange(pos as int, n as int)),
            entries_of(s@) == entry_views(es@) + entries_of(s@.subrange(pos as int, n as int)),
        decreases n - pos,
    {
        let nl = find_char_from(s, pos, n, '\n');
        let ghost suffix = s@.subrange(pos as int, n as int);
        let ghost line = s@.subrange(pos as int, nl as int);
        let next = if nl < n {
            nl + 1
        } else {
            n
        };
        let ghost rest = s@.subrange(next as int, n as int);
        proof {
            assert forall|k: int| 0 <= k < nl - pos implies suffix[k] != '\n' by {
                assert(suffix[k] == s@[pos + k]);
            }
            lemma_take_line_at(suffix, nl - pos);
            assert(suffix.subrange(0, nl - pos) =~= line);
            if nl < n {
                assert(suffix.subrange(nl - pos + 1, suffix.len() as int) =~= rest);
            } else {
                assert(rest =~= Seq::<char>::empty());
            }
            assert(take_line(suffix).0 == line);
            assert(take_line(suffix).1 == rest);
        }
        let (a, b) = trim_bounds(s, pos, nl);
        if a == b {
            proof {
                assert(line_blank(line));
                assert(entries_of(s@) == entry_views(es@) + entries_of(rest));
                assert(lines_ok(s@) == lines_ok(rest));
            }
            pos = next;
        } else if s.get_char(a) == '#' {
            proof {
                assert(trim_spec(line)[0] == s@[a as int]);
                assert(line_comment(line));
                assert(entries_of(s@) == entry_views(es@) + entries_of(rest));
                assert(lines_ok(s@) == lines_ok(rest));
            }
            pos = next;
        } else {
            proof {
                assert(trim_spec(line).len() > 0);
                assert(trim_spec(line)[0] == s@[a as int]);
                assert(!line_blank(line) && !line_comment(line));
            }
            let colon = find_char_from(s, pos, nl, ':');
            if colon == nl {
                proof {
                    assert forall|k: int| 0 <= k < line.len() implies line[k] != ':' by {
                        assert(line[k] == s@[pos + k]);
                    }
                    lemma_find_first_at(line, ':', line.len() as int);
                    assert(!line_ok(line));
                    assert(!lines_ok(suffix));
                }
                return None;
            }
            let (ka, kb) = trim_bounds(s, pos, colon);
            let (va, vb) = trim_bounds(s, colon + 1, nl);
            let key = s.substring_char(ka, kb).to_owned();
            let value = s.substring_char(va, vb).to_owned();
            proof {
                assert forall|k: int| 0 <= k < colon - pos implies line[k] != ':' by {
                    assert(line[k] == s@[pos + k]);
                }
                assert(line[colon - pos] == s@[colon as int]);
                lemma_find_first_at(line, ':', colon - pos);
                assert(line.subrange(0, colon - pos) =~= s@.subrange(pos as int, colon as int));
                assert(line.subrange(colon - pos + 1, line.len() as int) =~= s@.subrange(
                    colon as int + 1,
                    nl as int,
                ));
                assert(entry_of(line) == Some((key@, value@)));
                assert(entries_of(suffix) == seq![(key@, value@)] + entries_of(rest));
                assert(entry_views(es@.push((key, value))) =~= entry_views(es@).push(
                    (key@, value@),
                ));
                assert(entry_views(es@) + entries_of(suffix) =~= entry_views(es@.push((key, value)))
                    + entries_of(rest));
                assert(lines_ok(s@) == lines_ok(rest));
            }
            es.push((key, value));
            pos = next;
        }
    }
    proof {
        assert(s@.subrange(pos as int, n as int) =~= Seq::<char>::empty());
        assert(entries_of(s@) =~= entry_views(es@));
    }
    Some(es)
}

/// The value under the first occurrence of `key`, as the schema's lookup
/// defines it.
fn assoc_lookup(es: &Vec<(String, String)>, key: &String) -> (r: Option<String>)
    ensures
        match r {
            Some(v) => assoc(entry_views(es@), key@) matches Some(w) && v@ == w,
            None => assoc(entry_views(es@), key@) is None,
        },
{
    proof {
        assert(entry_views(es@).skip(0) =~= entry_views(es@));
    }
    let mut i: usize = 0;
    while i < es.len()
        invariant
            i <= es.len(),
            assoc(entry_views(es@), key@) == assoc(entry_views(es@).skip(i as int), key@),
        decreases es.len() - i,
    {
        let e = &es[i];
        if e.0 == *key {
            return Some(e.1.clone());
        }
        proof {
            assert(entry_views(es@).skip(i as int).drop_first() =~= entry_views(es@).skip(
                i as int + 1,
            ));
        }
        i += 1;
    }
    None
}

/// The port a value text denotes, exactly as `port_of` defines it.
pub fn parse_port(v: &str) -> (r: Option<u16>)
    ensures
        r == port_of(v@),
{
    let n = v.unicode_len();
    if n == 0 {
        return None;
    }
    let mut i: usize = 0;
    while i < n
        invariant
            i <= n,
            n == v@.len(),
            forall|k: int| 0 <= k < i ==> is_digit(#[trigger] v@[k]),
        decreases n - i,
    {
        let c = v.get_char(i);
        let u = c as u32;
        if u < 48 || u > 57 {
            proof {
                assert(!is_digit(v@[i as int]));
            }
            return None;
        }
        i += 1;
    }
    proof {
        assert(all_digits(v@));
    }
    let mut acc: u32 = 0;
    let mut j: usize = 0;
    while j < n
        invariant
            j <= n,
            n == v@.len(),
            all_digits(v@),
            acc <= 65535,
            acc as int == digits_val(v@.subrange(0, j as int)),
        decreases n - j,
    {
        let c = v.get_char(j);
        let d = (c as u32) - 48;
        proof {
            assert(is_digit(v@[j as int]));
            assert(v@.subrange(0, j as int + 1).drop_last() =~= v@.subrange(0, j as int));
            assert(digits_val(v@.subrange(0, j as int + 1)) == digits_val(
                v@.subrange(0, j as int),
            ) * 10 + d);
        }
        let next = acc * 10 + d;
        if next > 65535 {
            proof {
                lemma_digits_val_mono(v@, j as int + 1);
            }
            return None;
        }
        acc = next;
        j += 1;
    }
    proof {
        assert(v@.subrange(0, n as int) =~= v@);
    }
    Some(acc as u16)
}

/// Parses a configuration text against the schema: on success the parsed
/// record is exactly what the text denotes, and on failure the fault is
/// exactly the first one `parse_spec` assigns.
pub fn parse_config(text: &str) -> (r: Result<Config, ParseFault>)
    ensures
        match (r, parse_spec(text@)) {
            (Ok(c), Ok(v)) => c@ == v,
            (Err(f), Err(g)) => f == g,
            _ => false,
        },
{
    let es = match scan_entries(text) {
        Some(es) => es,
        None => {
            return Err(ParseFault::MalformedLine);
        },
    };
    let sender = match assoc_lookup(&es, &String::from_str("sender")) {
        Some(v) => v,
        None => {
            return Err(ParseFault::MissingField(ConfigField::Sender));
        },
    };
    let receiver = match assoc_lookup(&es, &String::from_str("receiver")) {
        Some(v) => v,
        None => {
            return Err(ParseFault::MissingField(ConfigField::Receiver));
        },
    };
    let smtp_server = match assoc_lookup(&es, &String::from_str("smtp_server")) {
        Some(v) => v,
        None => {
            return Err(ParseFault::MissingField(ConfigField::SmtpServer));
        },
    };
    let port_text = match assoc_lookup(&es, &String::from_str("smtp_port")) {
        Some(v) => v,
        None => {
            return Err(ParseFault::MissingField(ConfigField::SmtpPort));
        },
    };
    let keychain_service = match assoc_lookup(&es, &String::from_str("keychain_service")) {
        Some(v) => v,
        None => {
            return Err(ParseFault::MissingField(ConfigField::KeychainService));
        },
    };
    let keychain_account = match assoc_lookup(&es, &String::from_str("keychain_account")) {
        Some(v) => v,
        None => {
            return Err(ParseFault::MissingField(ConfigField::KeychainAccount));
        },
    };
    let smtp_port = match parse_port(port_text.as_str()) {
        Some(p) => p,
        None => {
            return Err(ParseFault::InvalidPort);
        },
    };
    Ok(
        Config {
            sender,
            receiver,
            smtp_server,
            smtp_port,
            keychain_service,
            keychain_account,
        },
    )
}

/// Loads a configuration from the text read at `path`: a schema fault
/// becomes `ConfigParseError` carrying that path and exactly that fault.
pub fn load_config(path: &str, text: &str) -> (r: Result<Config, MailError>)
    ensures
        match (r, parse_spec(text@)) {
            (Ok(c), Ok(v)) => c@ == v,
            (Err(e), Err(f)) => e matches MailError::ConfigParseError { path: p, fault } && p@
                == path@ && fault == f,
            _ => false,
        },
{
    match parse_config(text) {
        Ok(config) => Ok(config),
        Err(fault) => Err(MailError::ConfigParseError { path: path.to_owned(), fault }),
    }
}

/// The error reported when the file at `path` exists but cannot be read;
/// the underlying cause text is preserved.
pub fn read_failure(path: &str, cause: &str) -> (r: MailError)
    ensures
        r matches MailError::ConfigReadError { path: p, cause: c } && p@ == path@ && c@ == cause@,
{
    MailError::ConfigReadError { path: path.to_owned(), cause: cause.to_owned() }
}

// ---------------------------------------------------------------------------
// The verified serializer.
// ---------------------------------------------------------------------------
/// One decimal digit as text.
fn digit_string(d: u16) -> (r: String)
    requires
        d <= 9,
    ensures
        r@ == seq![((48 + d as int) as u8) as char],
{
    let s: &str = match d {
        0 => "0",
        1 => "1",
        2 => "2",
        3 => "3",
        4 => "4",
        5 => "5",
        6 => "6",
        7 => "7",
        8 => "8",
        _ => "9",
    };
    proof {
        reveal_strlit("0");
        reveal_strlit("1");
        reveal_strlit("2");
        reveal_strlit("3");
        reveal_strlit("4");
        reveal_strlit("5");
        reveal_strlit("6");
        reveal_strlit("7");
        reveal_strlit("8");
        reveal_strlit("9");
        assert(s@ =~= seq![((48 + d as int) as u8) as char]);
    }
    s.to_owned()
}

/// The decimal text of a port number.
pub fn port_text(p: u16) -> (r: String)
    ensures
        r@ == dec_str(p as int),
    decreases p,
{
    if p <= 9 {
        digit_string(p)
    } else {
        let mut s = port_text(p / 10);
        let d = digit_string(p % 10);
        s.append(d.as_str());
        proof {
            assert(s@ =~= dec_str((p / 10) as int).push(((48 + (p as int) % 10) as u8) as char));
        }
        s
    }
}

/// Writes a configuration in the schema: the six fields in order, one
/// `key: value` line each.
pub fn serialize_config(c: &Config) -> (r: String)
    ensures
        r@ == serialize_spec(c@),
{
    proof {
        reveal_strlit("sender: ");
        reveal_strlit("receiver: ");
        reveal_strlit("smtp_server: ");
        reveal_strlit("smtp_port: ");
        reveal_strlit("keychain_service: ");
        reveal_strlit("keychain_account: ");
        reveal_strlit("sender");
        reveal_strlit("receiver");
        reveal_strlit("smtp_server");
        reveal_strlit("smtp_port");
        reveal_strlit("keychain_service");
        reveal_strlit("keychain_account");
        reveal_strlit(": ");
        reveal_strlit("\n");
    }
    let mut out = String::new();
    out.append("sender: ");
    out.append(c.sender.as_str());
    out.append("\n");
    let ghost g1 = render_line("sender"@, c.sender@);
    proof {
        assert(out@ =~= g1);
    }
    out.append("receiver: ");
    out.append(c.receiver.as_str());
    out.append("\n");
    let ghost g2 = g1 + render_line("receiver"@, c.receiver@);
    proof {
        assert(out@ =~= g2);
    }
    out.append("smtp_server: ");
    out.append(c.smtp_server.as_str());
    out.append("\n");
    let ghost g3 = g2 + render_line("smtp_server"@, c.smtp_server@);
    proof {
        assert(out@ =~= g3);
    }
    let port = port_text(c.smtp_port);
    out.append("smtp_port: ");
    out.append(port.as_str());
    out.append("\n");
    let ghost g4 = g3 + render_line("smtp_port"@, dec_str(c.smtp_port as int));
    proof {
        assert(out@ =~= g4);
    }
    out.append("keychain_service: ");
    out.append(c.keychain_service.as_str());
    out.append("\n");
    let ghost g5 = g4 + render_line("keychain_service"@, c.keychain_service@);
    proof {
        assert(out@ =~= g5);
    }
    out.append("keychain_account: ");
    out.append(c.keychain_account.as_str());
    out.append("\n");
    proof {
        assert(out@ =~= g5 + render_line("keychain_account"@, c.keychain_account@));
        assert(out@ =~= serialize_spec(c@));
    }
    out
}

// ---------------------------------------------------------------------------
// Laws of the schema.
// ---------------------------------------------------------------------------
/// A field value the flat schema can carry verbatim: no newline, and no
/// space at either end (the parser trims both).
pub open spec fn scalar_ok(v: Seq<char>) -> bool {
    &&& forall|i: int| 0 <= i < v.len() ==> v[i] != '\n'
    &&& v.len() > 0 ==> v[0] != ' ' && v[v.len() - 1] != ' '
}

/// A configuration every one of whose text fields the schema can carry.
pub open spec fn schema_safe(c: ConfigView) -> bool {
    &&& scalar_ok(c.sender)
    &&& scalar_ok(c.receiver)
    &&& scalar_ok(c.smtp_server)
    &&& scalar_ok(c.keychain_service)
    &&& scalar_ok(c.keychain_account)
}

/// The decimal text of a non-negative number is all digits and reads back
/// as that number.
pub proof fn lemma_dec_str(n: int)
    requires
        n >= 0,
    ensures
        all_digits(dec_str(n)),
        digits_val(dec_str(n)) == n,
        dec_str(n).len() > 0,
    decreases n,
{
    if n <= 9 {
        let s = dec_str(n);
        assert(s.len() == 1);
        assert(s[0] == ((48 + n) as u8) as char);
        assert(s[0] as u32 == 48 + n);
        assert(s.drop_last() =~= Seq::<char>::empty());
        assert(digits_val(Seq::<char>::empty()) == 0);
        assert(digits_val(s) == digits_val(s.drop_last()) * 10 + (s[0] as u32 - 48));
    } else {
        lemma_dec_str(n / 10);
        let s = dec_str(n / 10);
        let c = ((48 + n % 10) as u8) as char;
        let q = s.push(c);
        assert(c as u32 == 48 + n % 10);
        assert(q.drop_last() =~= s);
        assert(q[q.len() - 1] == c);
        assert(digits_val(q) == digits_val(s) * 10 + n % 10);
        assert forall|i: int| 0 <= i < q.len() implies is_digit(#[trigger] q[i]) by {
            if i < s.len() {
                assert(q[i] == s[i]);
            }
        }
    }
}

/// How one serialized line reads back: `take_line` peels it off whole, and
/// it is an entry carrying exactly its key and value.
proof fn lemma_line_shape(key: Seq<char>, v: Seq<char>, rest: Seq<char>)
    requires
        key.len() > 0,
        forall|i: int| 0 <= i < key.len() ==> key[i] != '\n' && key[i] != ':' && key[i] != ' ',
        key[0] != '#',
        forall|i: int| 0 <= i < v.len() ==> v[i] != '\n',
        v.len() > 0 ==> v[0] != ' ' && v[v.len() - 1] != ' ',
    ensures
        take_line(render_line(key, v) + rest).0 == key + ": "@ + v,
        take_line(render_line(key, v) + rest).1 == rest,
        !line_blank(key + ": "@ + v),
        !line_comment(key + ": "@ + v),
        entry_of(key + ": "@ + v) == Some((key, v)),
        line_ok(key + ": "@ + v),
{
    reveal_strlit(": ");
    reveal_strlit("\n");
    assert(": "@.len() == 2 && ": "@[0] == ':' && ": "@[1] == ' ');
    assert("\n"@.len() == 1 && "\n"@[0] == '\n');
    let l = key + ": "@ + v;
    let full = render_line(key, v) + rest;
    assert(l.len() == key.len() + 2 + v.len());
    assert forall|k: int| 0 <= k < l.len() implies l[k] != '\n' by {
        if k < key.len() {
            assert(l[k] == key[k]);
        } else if k < key.len() + 2 {
            assert(l[k] == ": "@[k - key.len()]);
        } else {
            assert(l[k] == v[k - key.len() - 2]);
        }
    }
    assert(full.len() == l.len() + 1 + rest.len());
    assert forall|k: int| 0 <= k < l.len() implies full[k] == l[k] by {}
    assert(full[l.len() as int] == '\n');
    lemma_take_line_at(full, l.len() as int);
    assert(full.subrange(0, l.len() as int) =~= l);
    assert(full.subrange(l.len() as int + 1, full.len() as int) =~= rest);
    // the entry reading
    assert forall|k: int| 0 <= k < key.len() implies l[k] != ':' by {
        assert(l[k] == key[k]);
    }
    assert(l[key.len() as int] == ':');
    lemma_find_first_at(l, ':', key.len() as int);
    assert(find_first(l, ':') == Some(key.len() as int));
    assert(l.subrange(0, key.len() as int) =~= key);
    assert(trim_start_spec(key) == key);
    assert(trim_end_spec(key) == key);
    let tail = l.subrange(key.len() as int + 1, l.len() as int);
    assert(tail =~= seq![' '] + v);
    assert(tail[0] == ' ');
    assert(tail.drop_first() =~= v);
    assert(trim_start_spec(tail) == trim_start_spec(v));
    assert(trim_start_spec(v) == v);
    assert(trim_end_spec(v) == v);
    assert(entry_of(l) == Some((key, v)));
    // not blank, not a comment
    assert(l[0] == key[0]);
    assert(trim_start_spec(l) == l);
    if v.len() > 0 {
        assert(l[l.len() - 1] == v[v.len() - 1]);
        assert(trim_end_spec(l) == l);
        assert(trim_spec(l) == l);
    } else {
        assert(l[l.len() - 1] == ' ');
        assert(l.drop_last() =~= key + seq![':']);
        assert((key + seq![':'])[key.len() as int] == ':');
        assert(trim_end_spec(key + seq![':']) == key + seq![':']);
        assert(trim_spec(l) == key + seq![':']);
        assert(trim_spec(l)[0] == key[0]);
    }
}

/// Loader round-trip: a configuration written in the schema and parsed
/// again comes back field for field, whenever its text fields are ones the
/// flat schema can carry (a value holding a newline, or padded with
/// spaces, cannot survive any line-oriented, trimming format).
#[verifier::rlimit(100)]
pub proof fn lemma_round_trip(c: ConfigView)
    requires
        schema_safe(c),
    ensures
        parse_spec(serialize_spec(c)) == Ok::<ConfigView, ParseFault>(c),
{
    reveal_strlit("sender");
    reveal_strlit("receiver");
    reveal_strlit("smtp_server");
    reveal_strlit("smtp_port");
    reveal_strlit("keychain_service");
    reveal_strlit("keychain_account");
    let k1 = "sender"@;
    let k2 = "receiver"@;
    let k3 = "smtp_server"@;
    let k4 = "smtp_port"@;
    let k5 = "keychain_service"@;
    let k6 = "keychain_account"@;
    assert(forall|i: int| 0 <= i < k1.len() ==> k1[i] != '\n' && k1[i] != ':' && k1[i] != ' ');
    assert(forall|i: int| 0 <= i < k2.len() ==> k2[i] != '\n' && k2[i] != ':' && k2[i] != ' ');
    assert(forall|i: int| 0 <= i < k3.len() ==> k3[i] != '\n' && k3[i] != ':' && k3[i] != ' ');
    assert(forall|i: int| 0 <= i < k4.len() ==> k4[i] != '\n' && k4[i] != ':' && k4[i] != ' ');
    assert(forall|i: int| 0 <= i < k5.len() ==> k5[i] != '\n' && k5[i] != ':' && k5[i] != ' ');
    assert(forall|i: int| 0 <= i < k6.len() ==> k6[i] != '\n' && k6[i] != ':' && k6[i] != ' ');
    lemma_dec_str(c.smtp_port as int);
    let v4 = dec_str(c.smtp_port as int);
    assert forall|i: int| 0 <= i < v4.len() implies v4[i] != '\n' by {
        assert(is_digit(v4[i]));
    }
    assert(is_digit(v4[0]) && is_digit(v4[v4.len() - 1]));
    assert(v4[0] != ' ' && v4[v4.len() - 1] != ' ');
    let sp = serialize_spec(c);
    let r5 = render_line(k6, c.keychain_account);
    let r4 = render_line(k5, c.keychain_service) + r5;
    let r3 = render_line(k4, v4) + r4;
    let r2 = render_line(k3, c.smtp_server) + r3;
    let r1 = render_line(k2, c.receiver) + r2;
    assert(sp =~= render_line(k1, c.sender) + r1);
    lemma_line_shape(k1, c.sender, r1);
    assert(entries_of(sp) == seq![(k1, c.sender)] + entries_of(r1));
    assert(lines_ok(sp) == lines_ok(r1));
    lemma_line_shape(k2, c.receiver, r2);
    assert(entries_of(r1) == seq![(k2, c.receiver)] + entries_of(r2));
    assert(lines_ok(r1) == lines_ok(r2));
    lemma_line_shape(k3, c.smtp_server, r3);
    assert(entries_of(r2) == seq![(k3, c.smtp_server)] + entries_of(r3));
    assert(lines_ok(r2) == lines_ok(r3));
    lemma_line_shape(k4, v4, r4);
    assert(entries_of(r3) == seq![(k4, v4)] + entries_of(r4));
    assert(lines_ok(r3) == lines_ok(r4));
    lemma_line_shape(k5, c.keychain_service, r5);
    assert(entries_of(r4) == seq![(k5, c.keychain_service)] + entries_of(r5));
    assert(lines_ok(r4) == lines_ok(r5));
    let empty = Seq::<char>::empty();
    assert(r5 =~= render_line(k6, c.keychain_account) + empty);
    lemma_line_shape(k6, c.keychain_account, empty);
    assert(entries_of(r5) == seq![(k6, c.keychain_account)] + entries_of(empty));
    assert(lines_ok(r5) == lines_ok(empty));
    assert(lines_ok(empty));
    assert(entries_of(empty) =~= Seq::<(Seq<char>, Seq<char>)>::empty());
    let es = entries_of(sp);
    assert(es =~= seq![
        (k1, c.sender),
        (k2, c.receiver),
        (k3, c.smtp_server),
        (k4, v4),
        (k5, c.keychain_service),
        (k6, c.keychain_account),
    ]);
    let es1 = es.drop_first();
    let es2 = es1.drop_first();
    let es3 = es2.drop_first();
    let es4 = es3.drop_first();
    let es5 = es4.drop_first();
    assert(es1 =~= seq![
        (k2, c.receiver),
        (k3, c.smtp_server),
        (k4, v4),
        (k5, c.keychain_service),
        (k6, c.keychain_account),
    ]);
    assert(es2 =~= seq![(k3, c.smtp_server), (k4, v4), (k5, c.keychain_service), (k6, c.keychain_account)]);
    assert(es3 =~= seq![(k4, v4), (k5, c.keychain_service), (k6, c.keychain_account)]);
    assert(es4 =~= seq![(k5, c.keychain_service), (k6, c.keychain_account)]);
    assert(es5 =~= seq![(k6, c.keychain_account)]);
    assert(k5[9] == 's' && k6[9] == 'a');
    assert(assoc(es, k1) == Some(c.sender));
    assert(assoc(es1, k2) == Some(c.receiver));
    assert(assoc(es, k2) == Some(c.receiver));
    assert(assoc(es2, k3) == Some(c.smtp_server));
    assert(assoc(es1, k3) == assoc(es2, k3));
    assert(assoc(es, k3) == Some(c.smtp_server));
    assert(assoc(es3, k4) == Some(v4));
    assert(assoc(es2, k4) == assoc(es3, k4));
    assert(assoc(es1, k4) == assoc(es2, k4));
    assert(assoc(es, k4) == Some(v4));
    assert(assoc(es4, k5) == Some(c.keychain_service));
    assert(assoc(es3, k5) == assoc(es4, k5));
    assert(assoc(es2, k5) == assoc(es3, k5));
    assert(assoc(es1, k5) == assoc(es2, k5));
    assert(assoc(es, k5) == Some(c.keychain_service));
    assert(assoc(es5, k6) == Some(c.keychain_account));
    assert(assoc(es4, k6) == assoc(es5, k6));
    assert(assoc(es3, k6) == assoc(es4, k6));
    assert(assoc(es2, k6) == assoc(es3, k6));
    assert(assoc(es1, k6) == assoc(es2, k6));
    assert(assoc(es, k6) == Some(c.keychain_account));
    assert(port_of(v4) == Some(c.smtp_port));
    assert(parse_spec(sp) matches Ok(v) && v =~= c);
}

/// Missing field: a well-lined text in which some mandatory field does not
/// occur never parses into a configuration — no default is substituted; the
/// result is a missing-field fault.
pub proof fn lemma_missing_field(s: Seq<char>, f: ConfigField)
    requires
        lines_ok(s),
        assoc(entries_of(s), crate::errors::field_name_view(f)) is None,
    ensures
        parse_spec(s) matches Err(fault) && fault matches ParseFault::MissingField(_),
{
}

} // verus!
