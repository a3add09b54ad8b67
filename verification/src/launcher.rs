//! Device sign-in prompt parsing and shell command text.
use vstd::prelude::*;
use crate::text::{
    chars_of, contains_chars, contains_text, decimal, find_from, is_ws, lemma_position, position, same_chars,
    string_of, trim_vec, trim_ws,
};

verus! {

/// What a single character of a value becomes inside a single-quoted shell word.
pub open spec fn quote_piece(c: char) -> Seq<char> {
    if c == '\'' {
        seq!['\'', '\\', '\'', '\'']
    } else {
        seq![c]
    }
}

/// The body of a single-quoted shell word: every `'` replaced by `'\''`.
pub open spec fn quoted_body(s: Seq<char>) -> Seq<char>
    decreases s.len(),
{
    if s.len() == 0 {
        Seq::empty()
    } else {
        quoted_body(s.drop_last()) + quote_piece(s.last())
    }
}

/// `value` as one single-quoted POSIX shell word.
pub fn shell_quote(value: &str) -> (r: String)
    ensures
        r@ == seq!['\''] + quoted_body(value@) + seq!['\''],
{
    let cs = chars_of(value);
    let mut out: Vec<char> = Vec::new();
    out.push('\'');
    let mut i: usize = 0;
    while i < cs.len()
        invariant
            i <= cs@.len(),
            out@ == seq!['\''] + quoted_body(cs@.take(i as int)),
        decreases cs.len() - i,
    {
        let c = cs[i];
        if c == '\'' {
            out.push('\'');
            out.push('\\');
            out.push('\'');
            out.push('\'');
        } else {
            out.push(c);
        }
        assert(cs@.take(i + 1).drop_last() =~= cs@.take(i as int));
        i = i + 1;
        assert(out@ =~= seq!['\''] + quoted_body(cs@.take(i as int)));
    }
    out.push('\'');
    assert(cs@.take(cs@.len() as int) =~= cs@);
    string_of(out.as_slice())
}


/// How the CLI is asked to sign in.
#[derive(Clone, Copy, PartialEq, Eq, Debug, Structural)]
pub enum LoginMode {
    Browser,
    Device,
}

/// The only URL accepted in a device sign-in prompt.
pub open spec fn device_url() -> Seq<char> {
    "https://auth.openai.com/codex/device"@
}

/// The label of the line that precedes the one-time code.
pub open spec fn code_marker() -> Seq<char> {
    "Enter this one-time code"@
}

/// A final character of an ANSI control sequence.
pub open spec fn is_final(c: char) -> bool {
    '@' <= c <= '~'
}

/// Index of the first final character in `s`, or `s.len()`.
pub open spec fn final_pos(s: Seq<char>) -> int
    decreases s.len(),
{
    if s.len() == 0 {
        0
    } else if is_final(s[0]) {
        0
    } else {
        1 + final_pos(s.drop_first())
    }
}

pub proof fn lemma_final_pos(s: Seq<char>)
    ensures
        0 <= final_pos(s) <= s.len(),
        forall|k: int| 0 <= k < final_pos(s) ==> !is_final(s[k]),
        final_pos(s) < s.len() ==> is_final(s[final_pos(s)]),
    decreases s.len(),
{
    if s.len() > 0 && !is_final(s[0]) {
        lemma_final_pos(s.drop_first());
        assert forall|k: int| 0 <= k < final_pos(s) implies !is_final(s[k]) by {
            if k > 0 {
                assert(s[k] == s.drop_first()[k - 1]);
            }
        }
    }
}

/// How many characters after `ESC [` a control sequence spans: up to and
/// including its final character, or to the end of the text.
pub open spec fn sequence_len(rest: Seq<char>) -> int {
    if final_pos(rest) < rest.len() {
        final_pos(rest) + 1
    } else {
        rest.len() as int
    }
}

/// The text with ANSI `ESC [ ... final` sequences removed; `None` when an
/// `ESC` is last or is not followed by `[`.
pub open spec fn strip_ansi(s: Seq<char>) -> Option<Seq<char>>
    decreases s.len(),
{
    if s.len() == 0 {
        Some(Seq::empty())
    } else if s[0] == '\u{1b}' {
        if s.len() < 2 || s[1] != '[' {
            None
        } else {
            let rest = s.subrange(2, s.len() as int);
            proof {
                lemma_final_pos(rest);
            }
            strip_ansi(rest.subrange(sequence_len(rest), rest.len() as int))
        }
    } else {
        match strip_ansi(s.drop_first()) {
            Some(t) => Some(seq![s[0]] + t),
            None => None,
        }
    }
}

/// `prefix` put in front of a stripped remainder.
pub open spec fn prefixed(prefix: Seq<char>, o: Option<Seq<char>>) -> Option<Seq<char>> {
    match o {
        Some(t) => Some(prefix + t),
        None => None,
    }
}

/// `str::split_inclusive('\n')`: lines with their terminators, the last
/// one without a terminator when the text does not end with one.
pub open spec fn pieces(t: Seq<char>) -> Seq<Seq<char>>
    decreases t.len(),
{
    if t.len() == 0 {
        Seq::empty()
    } else {
        proof {
            lemma_position(t, '\n');
        }
        let k = position(t, '\n');
        if k < t.len() {
            seq![t.subrange(0, k + 1)] + pieces(t.subrange(k + 1, t.len() as int))
        } else {
            seq![t]
        }
    }
}

/// Index of the first piece at or after `from` that satisfies `p`, or `ps.len()`.
pub open spec fn first_piece(ps: Seq<Seq<char>>, from: int, p: spec_fn(Seq<char>) -> bool) -> int
    decreases ps.len() - from,
{
    if from < 0 || from >= ps.len() {
        ps.len() as int
    } else if p(ps[from]) {
        from
    } else {
        first_piece(ps, from + 1, p)
    }
}

/// A one-time code: 6 to 32 of `A`-`Z`, `0`-`9` and `-`.
pub open spec fn valid_code(code: Seq<char>) -> bool {
    6 <= code.len() <= 32 && forall|i: int|
        0 <= i < code.len() ==> ('A' <= #[trigger] code[i] <= 'Z') || ('0' <= code[i] <= '9')
            || code[i] == '-'
}

/// The one-time code a device sign-in prompt shows: the prompt must hold a
/// line that is exactly the official URL, and a line labeled with the code
/// marker, followed by a complete (terminated) non-blank line holding a
/// valid code.
pub open spec fn device_code(output: Seq<char>) -> Option<Seq<char>> {
    match strip_ansi(output) {
        None => None,
        Some(plain) => {
            let ps = pieces(plain);
            let m = first_piece(ps, 0, |l: Seq<char>| contains_text(l, code_marker()));
            let k = first_piece(ps, m + 1, |l: Seq<char>| trim_ws(l).len() > 0);
            if !(exists|j: int| 0 <= j < ps.len() && trim_ws(#[trigger] ps[j]) == device_url()) {
                None
            } else if m >= ps.len() || k >= ps.len() {
                None
            } else if ps[k].last() != '\n' || !valid_code(trim_ws(ps[k])) {
                None
            } else {
                Some(trim_ws(ps[k]))
            }
        },
    }
}

/// `first_piece` finds the first piece at or after `from` that satisfies `p`.
pub proof fn lemma_first_piece(ps: Seq<Seq<char>>, from: int, p: spec_fn(Seq<char>) -> bool)
    requires
        0 <= from,
    ensures
        from <= first_piece(ps, from, p) || first_piece(ps, from, p) == ps.len(),
        first_piece(ps, from, p) <= ps.len(),
        first_piece(ps, from, p) < ps.len() ==> p(ps[first_piece(ps, from, p)]),
        forall|j: int| from <= j < first_piece(ps, from, p) ==> !p(#[trigger] ps[j]),
    decreases ps.len() - from,
{
    if from < ps.len() && !p(ps[from]) {
        lemma_first_piece(ps, from + 1, p);
    }
}

/// An `ESC` not followed by `[`, before any control sequence started, makes
/// the prompt unreadable.
pub proof fn law_bare_escape_refused(s: Seq<char>, i: int)
    requires
        0 <= i < s.len(),
        s[i] == '\u{1b}',
        i + 1 == s.len() || s[i + 1] != '[',
        forall|j: int| 0 <= j < i ==> s[j] != '\u{1b}',
    ensures
        strip_ansi(s) is None,
        device_code(s) is None,
    decreases i,
{
    if i > 0 {
        law_bare_escape_refused(s.drop_first(), i - 1);
    }
}

/// The line holding the code label: the first one that contains it.
pub open spec fn marker_piece(ps: Seq<Seq<char>>) -> int {
    first_piece(ps, 0, |l: Seq<char>| contains_text(l, code_marker()))
}

/// The line read as the code: the first non-blank one after the label.
pub open spec fn code_piece(ps: Seq<Seq<char>>) -> int {
    first_piece(ps, marker_piece(ps) + 1, |l: Seq<char>| trim_ws(l).len() > 0)
}

/// The shape of an accepted device sign-in prompt. Once ANSI `ESC [ ... final`
/// sequences are removed: some line is exactly the official URL (spaces
/// aside); the code is the trimmed first non-blank line after the first line
/// holding the code label; that line is complete (ends with a line break);
/// and the code has 6 to 32 characters of `A`-`Z`, `0`-`9` and `-`.
pub proof fn law_device_prompt_structure(output: Seq<char>)
    ensures
        device_code(output) matches Some(c) ==> {
            let ps = pieces(strip_ansi(output)->0);
            let m = marker_piece(ps);
            let k = code_piece(ps);
            &&& strip_ansi(output) is Some
            &&& exists|j: int| 0 <= j < ps.len() && trim_ws(#[trigger] ps[j]) == device_url()
            &&& 0 <= m < k < ps.len()
            &&& contains_text(ps[m], code_marker())
            &&& forall|j: int| 0 <= j < m ==> !contains_text(#[trigger] ps[j], code_marker())
            &&& forall|j: int| m < j < k ==> trim_ws(#[trigger] ps[j]).len() == 0
            &&& ps[k].last() == '\n'
            &&& c == trim_ws(ps[k])
            &&& valid_code(c)
        },
{
    if device_code(output) is Some {
        let ps = pieces(strip_ansi(output)->0);
        let pm = |l: Seq<char>| contains_text(l, code_marker());
        let pk = |l: Seq<char>| trim_ws(l).len() > 0;
        let m = first_piece(ps, 0, pm);
        lemma_first_piece(ps, 0, pm);
        lemma_first_piece(ps, m + 1, pk);
        assert(forall|j: int| 0 <= j < m ==> !pm(#[trigger] ps[j]));
        assert(forall|j: int| m + 1 <= j < first_piece(ps, m + 1, pk) ==> !pk(#[trigger] ps[j]));
    }
}

/// Removes ANSI control sequences as `device_code` reads them.
fn strip_ansi_exec(cs: &Vec<char>) -> (r: Option<Vec<char>>)
    ensures
        match r {
            Some(v) => strip_ansi(cs@) == Some(v@),
            None => strip_ansi(cs@) is None,
        },
{
    let mut out: Vec<char> = Vec::new();
    let mut i: usize = 0;
    assert(cs@.subrange(0, cs@.len() as int) =~= cs@);
    while i < cs.len()
        invariant
            i <= cs@.len(),
            strip_ansi(cs@) == prefixed(out@, strip_ansi(cs@.subrange(i as int, cs@.len() as int))),
        decreases cs.len() - i,
    {
        let ghost s = cs@.subrange(i as int, cs@.len() as int);
        assert(s[0] == cs@[i as int]);
        if cs[i] == '\u{1b}' {
            if i + 1 >= cs.len() || cs[i + 1] != '[' {
                assert(s.len() < 2 || s[1] != '[');
                return None;
            }
            let start = i + 2;
            let ghost rest = s.subrange(2, s.len() as int);
            assert(rest =~= cs@.subrange(start as int, cs@.len() as int));
            proof {
                lemma_final_pos(rest);
            }
            let mut j = start;
            while j < cs.len() && !('@' <= cs[j] && cs[j] <= '~')
                invariant
                    start <= j <= cs@.len(),
                    rest == cs@.subrange(start as int, cs@.len() as int),
                    forall|k: int| start <= k < j ==> !is_final(#[trigger] cs@[k]),
                decreases cs.len() - j,
            {
                j = j + 1;
            }
            proof {
                assert forall|k: int| 0 <= k < j - start implies !is_final(#[trigger] rest[k]) by {
                    assert(rest[k] == cs@[start + k]);
                }
                if j < cs@.len() {
                    assert(rest[j - start] == cs@[j as int]);
                    if final_pos(rest) < j - start {
                        assert(!is_final(rest[final_pos(rest)]));
                    }
                    assert(final_pos(rest) == j - start);
                } else {
                    if final_pos(rest) < rest.len() {
                        assert(!is_final(rest[final_pos(rest)]));
                    }
                }
            }
            let next = if j < cs.len() { j + 1 } else { j };
            assert(rest.subrange(sequence_len(rest), rest.len() as int) =~= cs@.subrange(
                next as int,
                cs@.len() as int,
            ));
            i = next;
        } else {
            out.push(cs[i]);
            assert(s.drop_first() =~= cs@.subrange(i + 1, cs@.len() as int));
            proof {
                let o = strip_ansi(s.drop_first());
                if o is Some {
                    assert(out@ + o->0 =~= out@.drop_last() + (seq![s[0]] + o->0));
                }
            }
            i = i + 1;
        }
    }
    assert(strip_ansi(cs@.subrange(i as int, cs@.len() as int)) == Some(Seq::<char>::empty()));
    assert(out@ + Seq::<char>::empty() =~= out@);
    Some(out)
}

/// Splits text into `split_inclusive('\n')` pieces.
fn split_pieces(cs: &Vec<char>) -> (r: Vec<Vec<char>>)
    ensures
        r@.map_values(|v: Vec<char>| v@) == pieces(cs@),
{
    let mut out: Vec<Vec<char>> = Vec::new();
    let mut start: usize = 0;
    assert(cs@.subrange(0, cs@.len() as int) =~= cs@);
    while start < cs.len()
        invariant
            start <= cs@.len(),
            pieces(cs@) == out@.map_values(|v: Vec<char>| v@) + pieces(
                cs@.subrange(start as int, cs@.len() as int),
            ),
        decreases cs.len() - start,
    {
        let ghost t = cs@.subrange(start as int, cs@.len() as int);
        proof {
            lemma_position(t, '\n');
        }
        let k = find_from(cs, start, '\n');
        let end = if k < cs.len() { k + 1 } else { k };
        let mut piece: Vec<char> = Vec::new();
        let mut i = start;
        while i < end
            invariant
                start <= i <= end <= cs@.len(),
                piece@ == cs@.subrange(start as int, i as int),
            decreases end - i,
        {
            piece.push(cs[i]);
            i = i + 1;
            assert(piece@ =~= cs@.subrange(start as int, i as int));
        }
        let ghost before = out@;
        out.push(piece);
        assert(out@.map_values(|v: Vec<char>| v@) =~= before.map_values(|v: Vec<char>| v@).push(
            piece@,
        ));
        if k < cs.len() {
            assert(t.subrange(0, position(t, '\n') + 1) =~= piece@);
            assert(t.subrange(position(t, '\n') + 1, t.len() as int) =~= cs@.subrange(
                end as int,
                cs@.len() as int,
            ));
        } else {
            assert(t =~= piece@);
            assert(cs@.subrange(end as int, cs@.len() as int) =~= Seq::<char>::empty());
            assert(pieces(cs@.subrange(end as int, cs@.len() as int)) =~= Seq::<Seq<char>>::empty());
        }
        assert(before.map_values(|v: Vec<char>| v@).push(piece@) + pieces(
            cs@.subrange(end as int, cs@.len() as int),
        ) =~= before.map_values(|v: Vec<char>| v@) + (seq![piece@] + pieces(
            cs@.subrange(end as int, cs@.len() as int),
        )));
        start = end;
    }
    assert(pieces(cs@.subrange(start as int, cs@.len() as int)) =~= Seq::<Seq<char>>::empty());
    assert(out@.map_values(|v: Vec<char>| v@) + Seq::<Seq<char>>::empty() =~= out@.map_values(
        |v: Vec<char>| v@,
    ));
    out
}

fn valid_code_exec(code: &Vec<char>) -> (r: bool)
    ensures
        r == valid_code(code@),
{
    if code.len() < 6 || code.len() > 32 {
        return false;
    }
    let mut i: usize = 0;
    while i < code.len()
        invariant
            6 <= code@.len() <= 32,
            i <= code@.len(),
            forall|j: int|
                0 <= j < i ==> ('A' <= #[trigger] code@[j] <= 'Z') || ('0' <= code@[j] <= '9')
                    || code@[j] == '-',
        decreases code.len() - i,
    {
        let c = code[i];
        if !(('A' <= c && c <= 'Z') || ('0' <= c && c <= '9') || c == '-') {
            return false;
        }
        i = i + 1;
    }
    true
}

/// The link and code of a device sign-in, read from the CLI's prompt.
#[derive(Clone, Debug)]
pub struct DeviceLogin {
    code: String,
}

impl DeviceLogin {
    pub closed spec fn code_text(self) -> Seq<char> {
        self.code@
    }

    /// The official device sign-in page.
    pub fn url(&self) -> (r: &'static str)
        ensures
            r@ == device_url(),
    {
        "https://auth.openai.com/codex/device"
    }

    /// The one-time code.
    pub fn code(&self) -> (r: &str)
        ensures
            r@ == self.code_text(),
    {
        self.code.as_str()
    }

    /// The text to hand to the other computer: the link, a line break, and
    /// the labeled code.
    pub fn copy_text(&self) -> (r: String)
        ensures
            r@ == device_url() + "\nOne-time code: "@ + self.code_text(),
    {
        let mut out = chars_of(self.url());
        crate::text::push_str(&mut out, "\nOne-time code: ");
        crate::text::push_str(&mut out, self.code.as_str());
        string_of(out.as_slice())
    }

    /// Reads the CLI's device sign-in prompt, ANSI colors included. Only the
    /// official device URL and a complete, labeled code line are accepted.
    pub fn parse(output: &str) -> (r: Option<DeviceLogin>)
        ensures
            match r {
                Some(d) => device_code(output@) == Some(d.code_text()),
                None => device_code(output@) is None,
            },
    {
        let cs = chars_of(output);
        let plain = match strip_ansi_exec(&cs) {
            Some(p) => p,
            None => return None,
        };
        let ps = split_pieces(&plain);
        let ghost sp = ps@.map_values(|v: Vec<char>| v@);
        assert(sp == pieces(plain@));
        let url = chars_of("https://auth.openai.com/codex/device");
        let mut has_url = false;
        let mut i: usize = 0;
        while i < ps.len()
            invariant
                i <= ps@.len(),
                sp == ps@.map_values(|v: Vec<char>| v@),
                url@ == device_url(),
                has_url == exists|j: int| 0 <= j < i && trim_ws(#[trigger] sp[j]) == device_url(),
            decreases ps.len() - i,
        {
            let t = trim_vec(&ps[i]);
            assert(sp[i as int] == ps@[i as int]@);
            if same_chars(&t, &url) {
                has_url = true;
            }
            i = i + 1;
        }
        if !has_url {
            return None;
        }
        let marker = chars_of("Enter this one-time code");
        let ghost pm = |l: Seq<char>| contains_text(l, code_marker());
        let mut m: usize = 0;
        while m < ps.len()
            invariant
                m <= ps@.len(),
                sp == ps@.map_values(|v: Vec<char>| v@),
                marker@ == code_marker(),
                pm == (|l: Seq<char>| contains_text(l, code_marker())),
                first_piece(sp, 0, pm) == first_piece(sp, m as int, pm),
            ensures
                m <= ps@.len(),
                first_piece(sp, 0, pm) == first_piece(sp, m as int, pm),
                m < ps@.len() ==> pm(sp[m as int]),
            decreases ps.len() - m,
        {
            assert(sp[m as int] == ps@[m as int]@);
            if contains_chars(&ps[m], &marker) {
                break;
            }
            m = m + 1;
        }
        if m >= ps.len() {
            return None;
        }
        assert(first_piece(sp, 0, pm) == m);
        let ghost pn = |l: Seq<char>| trim_ws(l).len() > 0;
        let mut k: usize = m + 1;
        while k < ps.len()
            invariant
                m < k <= ps@.len(),
                sp == ps@.map_values(|v: Vec<char>| v@),
                pn == (|l: Seq<char>| trim_ws(l).len() > 0),
                first_piece(sp, m + 1, pn) == first_piece(sp, k as int, pn),
            ensures
                m < k <= ps@.len(),
                first_piece(sp, m + 1, pn) == first_piece(sp, k as int, pn),
                k < ps@.len() ==> pn(sp[k as int]),
            decreases ps.len() - k,
        {
            assert(sp[k as int] == ps@[k as int]@);
            let t = trim_vec(&ps[k]);
            if t.len() > 0 {
                break;
            }
            k = k + 1;
        }
        if k >= ps.len() {
            return None;
        }
        assert(first_piece(sp, m + 1, pn) == k);
        let line = &ps[k];
        assert(sp[k as int] == line@);
        if line.len() == 0 || line[line.len() - 1] != '\n' {
            return None;
        }
        let code = trim_vec(line);
        if !valid_code_exec(&code) {
            return None;
        }
        Some(DeviceLogin { code: string_of(code.as_slice()) })
    }
}


/// The text `toml_edit` displays for `toml_edit::Value::from(s)`.
pub uninterp spec fn toml_string_text(s: Seq<char>) -> Seq<char>;

/// The text `toml_edit` displays for an array of the strings `items`.
pub uninterp spec fn toml_array_text(items: Seq<Seq<char>>) -> Seq<char>;

/// Calls `toml_edit::Value::from(s).to_string()`: `s` as a TOML string value.
#[verifier::external_body]
fn toml_string(s: &str) -> (r: String)
    ensures
        r@ == toml_string_text(s@),
{
    toml_edit::Value::from(s).to_string()
}

/// Calls `toml_edit::Array::from_iter(items).to_string()`: the strings as a TOML array.
#[verifier::external_body]
fn toml_array(items: &Vec<String>) -> (r: String)
    ensures
        r@ == toml_array_text(items@.map_values(|s: String| s@)),
{
    items.iter().map(|s| s.as_str()).collect::<toml_edit::Array>().to_string()
}

/// The `-c key=value` overrides handed to the CLI, in order, before `-c`.
pub open spec fn provider_settings(port: u16, binary: Seq<char>, connection: Seq<char>) -> Seq<
    Seq<char>,
> {
    seq![
        "model_provider=\"subscription_switcher\""@,
        "model_providers.subscription_switcher.name=\"Subscription Switcher\""@,
        "model_providers.subscription_switcher.base_url=\"http://127.0.0.1:"@ + decimal(
            port as nat,
        ) + "/v1\""@,
        "model_providers.subscription_switcher.auth.command="@ + toml_string_text(binary),
        "model_providers.subscription_switcher.auth.args="@ + toml_array_text(
            seq!["--proxy-token"@, connection],
        ),
        "model_providers.subscription_switcher.wire_api=\"responses\""@,
        "model_providers.subscription_switcher.requires_openai_auth=false"@,
        "model_providers.subscription_switcher.supports_websockets=false"@,
        "features.responses_websockets=false"@,
        "features.responses_websockets_v2=false"@,
        "features.enable_request_compression=false"@,
    ]
}

/// Command-line arguments that point the CLI at the local proxy: each
/// setting preceded by `-c`.
pub fn provider_args(port: u16, binary: &str, connection: &str) -> (r: Vec<String>)
    ensures
        r@.len() == 2 * provider_settings(port, binary@, connection@).len(),
        forall|j: int|
            0 <= j < r@.len() ==> (#[trigger] r@[j])@ == if j % 2 == 0 {
                "-c"@
            } else {
                provider_settings(port, binary@, connection@)[j / 2]
            },
{
    let mut url = chars_of("model_providers.subscription_switcher.base_url=\"http://127.0.0.1:");
    crate::text::push_decimal(&mut url, port as u64);
    crate::text::push_str(&mut url, "/v1\"");
    let mut command = chars_of("model_providers.subscription_switcher.auth.command=");
    let quoted = toml_string(binary);
    crate::text::push_str(&mut command, quoted.as_str());
    let mut args_items: Vec<String> = Vec::new();
    args_items.push(String::from_str("--proxy-token"));
    args_items.push(String::from_str(connection));
    assert(args_items@.map_values(|s: String| s@) =~= seq!["--proxy-token"@, connection@]);
    let mut args = chars_of("model_providers.subscription_switcher.auth.args=");
    let array = toml_array(&args_items);
    crate::text::push_str(&mut args, array.as_str());
    let mut settings: Vec<String> = Vec::new();
    settings.push(String::from_str("model_provider=\"subscription_switcher\""));
    settings.push(
        String::from_str("model_providers.subscription_switcher.name=\"Subscription Switcher\""),
    );
    settings.push(string_of(url.as_slice()));
    settings.push(string_of(command.as_slice()));
    settings.push(string_of(args.as_slice()));
    settings.push(String::from_str("model_providers.subscription_switcher.wire_api=\"responses\""));
    settings.push(
        String::from_str("model_providers.subscription_switcher.requires_openai_auth=false"),
    );
    settings.push(String::from_str("model_providers.subscription_switcher.supports_websockets=false"));
    settings.push(String::from_str("features.responses_websockets=false"));
    settings.push(String::from_str("features.responses_websockets_v2=false"));
    settings.push(String::from_str("features.enable_request_compression=false"));
    let ghost expected = provider_settings(port, binary@, connection@);
    assert(settings@.len() == expected.len());
    assert forall|i: int| 0 <= i < expected.len() implies (#[trigger] settings@[i])@ == expected[i] by {}
    let mut out: Vec<String> = Vec::new();
    let mut i: usize = 0;
    while i < settings.len()
        invariant
            i <= settings@.len(),
            settings@.len() == expected.len(),
            forall|k: int| 0 <= k < expected.len() ==> (#[trigger] settings@[k])@ == expected[k],
            out@.len() == 2 * i,
            forall|j: int|
                0 <= j < out@.len() ==> (#[trigger] out@[j])@ == if j % 2 == 0 {
                    "-c"@
                } else {
                    expected[j / 2]
                },
        decreases settings.len() - i,
    {
        let ghost before = out@;
        out.push(String::from_str("-c"));
        out.push(settings[i].clone());
        assert forall|j: int| 0 <= j < out@.len() implies (#[trigger] out@[j])@ == if j % 2 == 0 {
            "-c"@
        } else {
            expected[j / 2]
        } by {
            if j < 2 * i {
                assert(out@[j] == before[j]);
            }
        }
        i = i + 1;
    }
    out
}

/// The `codex-switch` launcher script: it re-enters this application in
/// CLI mode with both homes set, forwarding all arguments.
pub open spec fn launcher_script_text(root: Seq<char>, codex_home: Seq<char>, exe: Seq<char>) -> Seq<
    char,
> {
    "#!/bin/sh\nexec /usr/bin/env CODEX_SWITCHER_HOME="@ + quoted_word(root) + " CODEX_HOME="@
        + quoted_word(codex_home) + " "@ + quoted_word(exe) + " --cli \"$@\"\n"@
}

/// A single-quoted shell word.
pub open spec fn quoted_word(s: Seq<char>) -> Seq<char> {
    seq!['\''] + quoted_body(s) + seq!['\'']
}

pub fn launcher_script(root: &str, codex_home: &str, exe: &str) -> (r: String)
    ensures
        r@ == launcher_script_text(root@, codex_home@, exe@),
{
    let mut out = chars_of("#!/bin/sh\nexec /usr/bin/env CODEX_SWITCHER_HOME=");
    crate::text::push_str(&mut out, shell_quote(root).as_str());
    crate::text::push_str(&mut out, " CODEX_HOME=");
    crate::text::push_str(&mut out, shell_quote(codex_home).as_str());
    crate::text::push_str(&mut out, " ");
    crate::text::push_str(&mut out, shell_quote(exe).as_str());
    crate::text::push_str(&mut out, " --cli \"$@\"\n");
    string_of(out.as_slice())
}

/// What the sign-in supervisor does next.
#[derive(Clone, Debug)]
pub enum LoginStep {
    /// The user canceled: stop the CLI.
    Canceled,
    /// The sign-in took longer than its mode allows.
    TimedOut,
    /// The CLI exited with a failure.
    Failed(LoginMode),
    /// The CLI exited successfully: import the login it saved.
    Import,
    /// The device prompt is complete: show this link and code once.
    ShowPrompt(DeviceLogin),
    /// No readable device prompt a minute after start.
    PromptUnreadable,
    /// Nothing to do yet; look again shortly.
    Wait,
}

/// How long a sign-in may take: five minutes in the browser, fifteen with a device code.
pub open spec fn login_timeout_ms(mode: LoginMode) -> u64 {
    match mode {
        LoginMode::Browser => 300_000,
        LoginMode::Device => 900_000,
    }
}

/// The next step of a sign-in, `elapsed_ms` after it started. `exit` is the
/// CLI's exit (whether it succeeded) once it ended; `output` what it printed
/// so far, read only while a device prompt is still awaited.
pub open spec fn login_step_of(
    mode: LoginMode,
    elapsed_ms: u64,
    canceled: bool,
    exit: Option<bool>,
    prompt_sent: bool,
    output: Option<Seq<char>>,
) -> LoginStepSpec {
    if canceled {
        LoginStepSpec::Canceled
    } else if elapsed_ms > login_timeout_ms(mode) {
        LoginStepSpec::TimedOut
    } else if exit is Some {
        if exit->0 {
            LoginStepSpec::Import
        } else {
            LoginStepSpec::Failed(mode)
        }
    } else if mode == LoginMode::Device && !prompt_sent {
        match output {
            Some(text) => match device_code(text) {
                Some(code) => LoginStepSpec::ShowPrompt(code),
                None => if elapsed_ms > 60_000 {
                    LoginStepSpec::PromptUnreadable
                } else {
                    LoginStepSpec::Wait
                },
            },
            None => if elapsed_ms > 60_000 {
                LoginStepSpec::PromptUnreadable
            } else {
                LoginStepSpec::Wait
            },
        }
    } else {
        LoginStepSpec::Wait
    }
}

/// A step as contracts speak of it: the prompt by its code.
pub enum LoginStepSpec {
    Canceled,
    TimedOut,
    Failed(LoginMode),
    Import,
    ShowPrompt(Seq<char>),
    PromptUnreadable,
    Wait,
}

pub open spec fn login_step_spec(s: LoginStep) -> LoginStepSpec {
    match s {
        LoginStep::Canceled => LoginStepSpec::Canceled,
        LoginStep::TimedOut => LoginStepSpec::TimedOut,
        LoginStep::Failed(m) => LoginStepSpec::Failed(m),
        LoginStep::Import => LoginStepSpec::Import,
        LoginStep::ShowPrompt(d) => LoginStepSpec::ShowPrompt(d.code_text()),
        LoginStep::PromptUnreadable => LoginStepSpec::PromptUnreadable,
        LoginStep::Wait => LoginStepSpec::Wait,
    }
}

/// Decides the next step of a sign-in; the caller runs the CLI, reads its
/// output and polls it.
pub fn login_step(
    mode: LoginMode,
    elapsed_ms: u64,
    canceled: bool,
    exit: Option<bool>,
    prompt_sent: bool,
    output: Option<&str>,
) -> (r: LoginStep)
    ensures
        login_step_spec(r) == login_step_of(mode, elapsed_ms, canceled, exit, prompt_sent, match output {
            Some(o) => Some(o@),
            None => None,
        }),
{
    let timeout: u64 = match mode {
        LoginMode::Browser => 300_000,
        LoginMode::Device => 900_000,
    };
    if canceled {
        return LoginStep::Canceled;
    }
    if elapsed_ms > timeout {
        return LoginStep::TimedOut;
    }
    if let Some(success) = exit {
        return if success {
            LoginStep::Import
        } else {
            LoginStep::Failed(mode)
        };
    }
    if mode == LoginMode::Device && !prompt_sent {
        if let Some(text) = output {
            if let Some(d) = DeviceLogin::parse(text) {
                return LoginStep::ShowPrompt(d);
            }
        }
        if elapsed_ms > 60_000 {
            return LoginStep::PromptUnreadable;
        }
    }
    LoginStep::Wait
}

/// The text shown for each `LoginStep`.
pub open spec fn login_step_text(e: LoginStep) -> Seq<char> {
    match e {
        LoginStep::Canceled => "Sign-in canceled."@,
        LoginStep::TimedOut => "Sign-in timed out. Try again."@,
        LoginStep::Failed(LoginMode::Browser) => "Sign-in failed. Check whether another sign-in process is using port 1455."@,
        LoginStep::Failed(LoginMode::Device) => "Device sign-in failed or expired. Enable device code login in ChatGPT security settings (or ask your workspace admin), check your connection, and try again with an up-to-date Codex CLI."@,
        LoginStep::PromptUnreadable => "Could not read the device sign-in link and code. Check your connection and update Codex CLI, then try again."@,
        _ => ""@,
    }
}

impl LoginStep {
    /// The error shown when the step ends the sign-in unsuccessfully.
    pub fn message(&self) -> (r: &'static str)
        ensures
            r@ == login_step_text(*self),
    {
        match self {
            LoginStep::Canceled => "Sign-in canceled.",
            LoginStep::TimedOut => "Sign-in timed out. Try again.",
            LoginStep::Failed(LoginMode::Browser) => "Sign-in failed. Check whether another sign-in process is using port 1455.",
            LoginStep::Failed(LoginMode::Device) => "Device sign-in failed or expired. Enable device code login in ChatGPT security settings (or ask your workspace admin), check your connection, and try again with an up-to-date Codex CLI.",
            LoginStep::PromptUnreadable => "Could not read the device sign-in link and code. Check your connection and update Codex CLI, then try again.",
            _ => "",
        }
    }
}

/// A device sign-in may take 15 minutes (its code expires then) and a
/// browser sign-in 5: a CLI that finished successfully within that time is
/// imported, and a sign-in past it, not canceled, is timed out.
pub proof fn law_sign_in_time_limits(
    elapsed_ms: u64,
    exit: Option<bool>,
    prompt_sent: bool,
    output: Option<Seq<char>>,
)
    ensures
        elapsed_ms <= 900_000 ==> login_step_of(
            LoginMode::Device,
            elapsed_ms,
            false,
            Some(true),
            prompt_sent,
            output,
        ) is Import,
        elapsed_ms > 900_000 ==> login_step_of(
            LoginMode::Device,
            elapsed_ms,
            false,
            exit,
            prompt_sent,
            output,
        ) is TimedOut,
        elapsed_ms <= 300_000 ==> login_step_of(
            LoginMode::Browser,
            elapsed_ms,
            false,
            Some(true),
            prompt_sent,
            output,
        ) is Import,
        elapsed_ms > 300_000 ==> login_step_of(
            LoginMode::Browser,
            elapsed_ms,
            false,
            exit,
            prompt_sent,
            output,
        ) is TimedOut,
{
}

/// Cancellation is always honored first, and a finished CLI is never
/// imported after the sign-in timed out.
pub proof fn law_cancel_and_timeout_come_first(
    mode: LoginMode,
    elapsed_ms: u64,
    exit: Option<bool>,
    prompt_sent: bool,
    output: Option<Seq<char>>,
)
    ensures
        login_step_of(mode, elapsed_ms, true, exit, prompt_sent, output) is Canceled,
        elapsed_ms > login_timeout_ms(mode) ==> login_step_of(mode, elapsed_ms, false, exit, prompt_sent, output) is TimedOut,
        login_step_of(LoginMode::Browser, elapsed_ms, false, None, prompt_sent, output) is Wait
            || login_step_of(LoginMode::Browser, elapsed_ms, false, None, prompt_sent, output) is TimedOut,
{
}

} // verus!
