//! Desktop-entry handling per the Desktop Entry Specification: unescaping,
//! Exec-key unquoting, field-code parsing, and the key/value scan of a
//! desktop file's lines. Finding and reading the files happens outside this
//! crate; the parsing is all here.

use vstd::prelude::*;
use crate::item::ItemV;
use crate::util::chars_to_string;
use crate::util::chars_vec;

verus! {

/// Whether a character follows a backslash as a recognized escape.
pub open spec fn spec_is_escape(c: char) -> bool {
    c == 's' || c == 'n' || c == 't' || c == 'r' || c == '\\'
}

/// What a recognized escape stands for.
pub open spec fn spec_unescaped(c: char) -> char {
    if c == 's' {
        ' '
    } else if c == 'n' {
        '\n'
    } else if c == 't' {
        '\t'
    } else if c == 'r' {
        '\r'
    } else {
        '\\'
    }
}

/// The text from position `i` on with escapes resolved: `\s`, `\n`, `\t`,
/// `\r` and `\\` become their characters; a backslash before anything else
/// (or at the end) is dropped.
pub open spec fn spec_unescape(s: Seq<char>, i: int) -> Seq<char>
    decreases s.len() - i,
{
    if i < 0 || i >= s.len() {
        Seq::empty()
    } else if s[i] == '\\' {
        if i + 1 < s.len() && spec_is_escape(s[i + 1]) {
            seq![spec_unescaped(s[i + 1])] + spec_unescape(s, i + 2)
        } else {
            spec_unescape(s, i + 1)
        }
    } else {
        seq![s[i]] + spec_unescape(s, i + 1)
    }
}

/// Unescape `\s`, `\n`, `\t`, `\r`, and `\\`.
pub fn unescape_string(input: &str) -> (r: String)
    ensures
        r@ == spec_unescape(input@, 0),
{
    let cs = chars_vec(input);
    let mut out: Vec<char> = Vec::new();
    proof {
        assert(spec_unescape(input@, 0) =~= out@ + spec_unescape(input@, 0));
    }
    let mut i: usize = 0;
    while i < cs.len()
        invariant
            i <= cs.len(),
            cs@ == input@,
            spec_unescape(input@, 0) == out@ + spec_unescape(input@, i as int),
        decreases cs.len() - i,
    {
        let c = cs[i];
        if c == '\\' {
            if i + 1 < cs.len() {
                let n = cs[i + 1];
                if n == 's' || n == 'n' || n == 't' || n == 'r' || n == '\\' {
                    out.push(
                        if n == 's' {
                            ' '
                        } else if n == 'n' {
                            '\n'
                        } else if n == 't' {
                            '\t'
                        } else if n == 'r' {
                            '\r'
                        } else {
                            '\\'
                        },
                    );
                    i += 2;
                } else {
                    i += 1;
                }
            } else {
                i += 1;
            }
        } else {
            out.push(c);
            i += 1;
        }
        proof {
            assert(spec_unescape(input@, 0) =~= out@ + spec_unescape(input@, i as int));
        }
    }
    chars_to_string(&out)
}

/// Whether a character may be escaped inside a quoted Exec argument.
pub open spec fn spec_is_quote_escape(c: char) -> bool {
    c == '"' || c == '`' || c == '$' || c == '\\'
}

/// The arguments of an Exec value from position `i` on, with the unquoting
/// state: spaces split outside quotes, double quotes open and close
/// arguments, and inside quotes a backslash escapes `"`, `` ` ``, `$` and
/// `\\`.
pub open spec fn spec_unquote(
    s: Seq<char>,
    i: int,
    in_quote: bool,
    current: Seq<char>,
    args: Seq<Seq<char>>,
) -> Seq<Seq<char>>
    decreases s.len() - i,
{
    if i < 0 || i >= s.len() {
        if current.len() > 0 {
            args.push(current)
        } else {
            args
        }
    } else if s[i] == ' ' && !in_quote {
        if current.len() > 0 {
            spec_unquote(s, i + 1, in_quote, Seq::empty(), args.push(current))
        } else {
            spec_unquote(s, i + 1, in_quote, current, args)
        }
    } else if s[i] == '\\' && in_quote {
        if i + 1 < s.len() && spec_is_quote_escape(s[i + 1]) {
            spec_unquote(s, i + 2, in_quote, current.push(s[i + 1]), args)
        } else {
            spec_unquote(s, i + 1, in_quote, current, args)
        }
    } else if s[i] == '"' && !in_quote {
        spec_unquote(s, i + 1, true, current, args)
    } else if s[i] == '"' && in_quote {
        spec_unquote(s, i + 1, false, Seq::empty(), args.push(current))
    } else {
        spec_unquote(s, i + 1, in_quote, current.push(s[i]), args)
    }
}

/// Unquote a string of arguments according to the Desktop Entry
/// Specification.
pub fn unquote_args(input: &str) -> (r: Vec<String>)
    ensures
        r.deep_view() == spec_unquote(input@, 0, false, Seq::empty(), Seq::empty()),
{
    let cs = chars_vec(input);
    let mut args: Vec<String> = Vec::new();
    let mut current: Vec<char> = Vec::new();
    proof {
        assert(args.deep_view() =~= Seq::<Seq<char>>::empty());
        assert(current@ =~= Seq::<char>::empty());
    }
    let mut in_quote = false;
    let mut i: usize = 0;
    while i < cs.len()
        invariant
            i <= cs.len(),
            cs@ == input@,
            spec_unquote(input@, 0, false, Seq::empty(), Seq::empty()) == spec_unquote(
                input@,
                i as int,
                in_quote,
                current@,
                args.deep_view(),
            ),
        decreases cs.len() - i,
    {
        let c = cs[i];
        if c == ' ' && !in_quote {
            if current.len() > 0 {
                let ghost before = args.deep_view();
                args.push(chars_to_string(&current));
                proof {
                    assert(args.deep_view() =~= before.push(current@));
                }
                current = Vec::new();
            }
            i += 1;
        } else if c == '\\' && in_quote {
            if i + 1 < cs.len() {
                let n = cs[i + 1];
                if n == '"' || n == '`' || n == '$' || n == '\\' {
                    current.push(n);
                    i += 2;
                } else {
                    i += 1;
                }
            } else {
                i += 1;
            }
        } else if c == '"' && !in_quote {
            in_quote = true;
            i += 1;
        } else if c == '"' && in_quote {
            let ghost before = args.deep_view();
            args.push(chars_to_string(&current));
            proof {
                assert(args.deep_view() =~= before.push(current@));
            }
            current = Vec::new();
            in_quote = false;
            i += 1;
        } else {
            current.push(c);
            i += 1;
        }
    }
    if current.len() > 0 {
        let ghost before = args.deep_view();
        args.push(chars_to_string(&current));
        proof {
            assert(args.deep_view() =~= before.push(current@));
        }
    }
    args
}

/// One parsed element of an Exec key: a literal argument, or a field code
/// standing for the files or URLs a launch would pass.
#[derive(Debug)]
pub enum ExecArg {
    Arg(String),
    File,
    Files,
    Url,
    Urls,
}

/// The mathematical image of an Exec-key element.
pub enum ExecArgV {
    Arg(Seq<char>),
    File,
    Files,
    Url,
    Urls,
}

impl DeepView for ExecArg {
    type V = ExecArgV;

    open spec fn deep_view(&self) -> ExecArgV {
        self.view()
    }
}

impl View for ExecArg {
    type V = ExecArgV;

    open spec fn view(&self) -> ExecArgV {
        match *self {
            ExecArg::Arg(ref s) => ExecArgV::Arg(s@),
            ExecArg::File => ExecArgV::File,
            ExecArg::Files => ExecArgV::Files,
            ExecArg::Url => ExecArgV::Url,
            ExecArg::Urls => ExecArgV::Urls,
        }
    }
}

impl PartialEq for ExecArg {
    fn eq(&self, other: &Self) -> (r: bool) {
        match self {
            ExecArg::Arg(a) => match other {
                ExecArg::Arg(b) => <String as PartialEq>::eq(a, b),
                _ => false,
            },
            ExecArg::File => matches!(other, ExecArg::File),
            ExecArg::Files => matches!(other, ExecArg::Files),
            ExecArg::Url => matches!(other, ExecArg::Url),
            ExecArg::Urls => matches!(other, ExecArg::Urls),
        }
    }
}

impl vstd::std_specs::cmp::PartialEqSpecImpl for ExecArg {
    open spec fn obeys_eq_spec() -> bool {
        true
    }

    open spec fn eq_spec(&self, other: &Self) -> bool {
        self@ == other@
    }
}

/// The field codes the parser expands: `%f`, `%F`, `%u`, `%U`.
pub open spec fn spec_field_code(c: char) -> Option<ExecArgV> {
    if c == 'f' {
        Some(ExecArgV::File)
    } else if c == 'F' {
        Some(ExecArgV::Files)
    } else if c == 'u' {
        Some(ExecArgV::Url)
    } else if c == 'U' {
        Some(ExecArgV::Urls)
    } else {
        None
    }
}

/// The elements of one argument from position `i` on: `%%` is a literal
/// percent, a recognized field code flushes the literal text collected so
/// far and stands on its own, an unrecognized code is dropped, and a
/// trailing percent is dropped.
pub open spec fn spec_field_codes(
    s: Seq<char>,
    i: int,
    current: Seq<char>,
    args: Seq<ExecArgV>,
) -> Seq<ExecArgV>
    decreases s.len() - i,
{
    if i < 0 || i >= s.len() {
        if current.len() > 0 {
            args.push(ExecArgV::Arg(current))
        } else {
            args
        }
    } else if s[i] == '%' {
        if i + 1 < s.len() {
            let n = s[i + 1];
            if n == '%' {
                spec_field_codes(s, i + 2, current.push('%'), args)
            } else {
                let args1 = if current.len() > 0 {
                    args.push(ExecArgV::Arg(current))
                } else {
                    args
                };
                let args2 = match spec_field_code(n) {
                    Some(code) => args1.push(code),
                    None => args1,
                };
                spec_field_codes(s, i + 2, Seq::empty(), args2)
            }
        } else {
            spec_field_codes(s, i + 1, current, args)
        }
    } else {
        spec_field_codes(s, i + 1, current.push(s[i]), args)
    }
}

/// Parse field codes in one unquoted Exec argument.
pub fn field_codes(input: &str) -> (r: Vec<ExecArg>)
    ensures
        r.deep_view() == spec_field_codes(input@, 0, Seq::empty(), Seq::empty()),
{
    let cs = chars_vec(input);
    let mut args: Vec<ExecArg> = Vec::new();
    let mut current: Vec<char> = Vec::new();
    proof {
        assert(args.deep_view() =~= Seq::<ExecArgV>::empty());
        assert(current@ =~= Seq::<char>::empty());
    }
    let mut i: usize = 0;
    while i < cs.len()
        invariant
            i <= cs.len(),
            cs@ == input@,
            spec_field_codes(input@, 0, Seq::empty(), Seq::empty()) == spec_field_codes(
                input@,
                i as int,
                current@,
                args.deep_view(),
            ),
        decreases cs.len() - i,
    {
        let c = cs[i];
        if c == '%' {
            if i + 1 < cs.len() {
                let n = cs[i + 1];
                if n == '%' {
                    current.push('%');
                } else {
                    if current.len() > 0 {
                        let ghost before = args.deep_view();
                        args.push(ExecArg::Arg(chars_to_string(&current)));
                        proof {
                            assert(args.deep_view() =~= before.push(ExecArgV::Arg(current@)));
                        }
                        current = Vec::new();
                    }
                    let ghost before = args.deep_view();
                    if n == 'f' {
                        args.push(ExecArg::File);
                    } else if n == 'F' {
                        args.push(ExecArg::Files);
                    } else if n == 'u' {
                        args.push(ExecArg::Url);
                    } else if n == 'U' {
                        args.push(ExecArg::Urls);
                    }
                    proof {
                        assert(args.deep_view() =~= match spec_field_code(cs@[i + 1]) {
                            Some(code) => before.push(code),
                            None => before,
                        });
                        assert(current@ =~= Seq::<char>::empty());
                    }
                }
                i += 2;
            } else {
                i += 1;
            }
        } else {
            current.push(c);
            i += 1;
        }
    }
    if current.len() > 0 {
        let ghost before = args.deep_view();
        args.push(ExecArg::Arg(chars_to_string(&current)));
        proof {
            assert(args.deep_view() =~= before.push(ExecArgV::Arg(current@)));
        }
    }
    args
}

/// A parsed Exec key: the unescaped, unquoted arguments with their field
/// codes.
#[derive(Debug)]
pub struct ExecKey(pub Vec<ExecArg>);

/// The elements a whole Exec value parses to: each unquoted argument's field
/// codes, concatenated in order.
pub open spec fn spec_exec_key(args: Seq<Seq<char>>, i: int) -> Seq<ExecArgV>
    decreases args.len() - i,
{
    if i < 0 || i >= args.len() {
        Seq::empty()
    } else {
        spec_field_codes(args[i], 0, Seq::empty(), Seq::empty()) + spec_exec_key(args, i + 1)
    }
}

impl ExecKey {
    /// Parse the exec string according to the Desktop Entry Specification:
    /// unescape, unquote, then expand field codes per argument.
    pub fn parse(s: &str) -> (r: Self)
        ensures
            r.0.deep_view() == spec_exec_key(
                spec_unquote(spec_unescape(s@, 0), 0, false, Seq::empty(), Seq::empty()),
                0,
            ),
    {
        let unescaped = unescape_string(s);
        let unquoted = unquote_args(unescaped.as_str());
        let ghost qargs = spec_unquote(spec_unescape(s@, 0), 0, false, Seq::empty(), Seq::empty());
        let mut out: Vec<ExecArg> = Vec::new();
        let mut i: usize = 0;
        while i < unquoted.len()
            invariant
                i <= unquoted.len(),
                unquoted.deep_view() == qargs,
                spec_exec_key(qargs, 0) =~= out.deep_view() + spec_exec_key(qargs, i as int),
            decreases unquoted.len() - i,
        {
            let mut part = field_codes(unquoted[i].as_str());
            let ghost before = out.deep_view();
            let ghost partv = part.deep_view();
            out.append(&mut part);
            proof {
                assert(unquoted@[i as int]@ == qargs[i as int]);
                assert(out.deep_view() =~= before + partv);
                assert(spec_exec_key(qargs, 0) =~= out.deep_view() + spec_exec_key(qargs, i + 1));
            }
            i += 1;
        }
        ExecKey(out)
    }

    /// The literal arguments of the parsed key, in order, field codes
    /// (which carry no data at launch time) dropped.
    pub open spec fn spec_expanded(&self) -> Seq<Seq<char>> {
        spec_literal_args(self.0.deep_view())
    }

    /// Expands field codes without data: the literal arguments in order.
    pub fn expand(&self) -> (r: Vec<String>)
        ensures
            r.deep_view() == self.spec_expanded(),
    {
        let mut parts: Vec<String> = Vec::new();
        let mut i: usize = 0;
        while i < self.0.len()
            invariant
                i <= self.0@.len(),
                parts.deep_view() =~= spec_literal_args(self.0.deep_view().subrange(0, i as int)),
            decreases self.0@.len() - i,
        {
            proof {
                assert(self.0.deep_view().subrange(0, i + 1).drop_last() == self.0.deep_view().subrange(
                    0,
                    i as int,
                ));
                assert(self.0.deep_view().subrange(0, i + 1).last() == self.0.deep_view()[i as int]);
                assert(self.0.deep_view()[i as int] == self.0@[i as int]@);
            }
            match &self.0[i] {
                ExecArg::Arg(s) => {
                    parts.push(s.clone());
                },
                _ => (),
            }
            i += 1;
        }
        proof {
            assert(self.0.deep_view().subrange(0, self.0.deep_view().len() as int) == self.0.deep_view());
        }
        parts
    }
}

/// The texts of the literal arguments, in order.
pub open spec fn spec_literal_args(s: Seq<ExecArgV>) -> Seq<Seq<char>>
    decreases s.len(),
{
    if s.len() == 0 {
        Seq::empty()
    } else {
        let rest = spec_literal_args(s.drop_last());
        match s.last() {
            ExecArgV::Arg(t) => rest.push(t),
            _ => rest,
        }
    }
}

impl PartialEq for ExecKey {
    fn eq(&self, other: &Self) -> (r: bool) {
        if self.0.len() != other.0.len() {
            proof {
                assert(self.0.deep_view().len() == self.0@.len());
                assert(other.0.deep_view().len() == other.0@.len());
                assert(self.0.deep_view() != other.0.deep_view());
            }
            return false;
        }
        let mut i: usize = 0;
        while i < self.0.len()
            invariant
                i <= self.0@.len(),
                self.0@.len() == other.0@.len(),
                forall|j: int| 0 <= j < i ==> self.0.deep_view()[j] == other.0.deep_view()[j],
            decreases self.0@.len() - i,
        {
            if !(self.0[i] == other.0[i]) {
                proof {
                    assert(self.0.deep_view()[i as int] != other.0.deep_view()[i as int]);
                    assert(self.0.deep_view() != other.0.deep_view());
                }
                return false;
            }
            i += 1;
        }
        proof {
            assert(self.0.deep_view() =~= other.0.deep_view());
        }
        true
    }
}

impl vstd::std_specs::cmp::PartialEqSpecImpl for ExecKey {
    open spec fn obeys_eq_spec() -> bool {
        true
    }

    open spec fn eq_spec(&self, other: &Self) -> bool {
        self.0.deep_view() == other.0.deep_view()
    }
}

/// ASCII whitespace, as trimmed from desktop-file keys and values.
pub open spec fn spec_is_ws(c: char) -> bool {
    c == ' ' || c == '\t' || c == '\r' || c == '\n'
}

/// The text with leading whitespace dropped.
pub open spec fn spec_trim_start(s: Seq<char>) -> Seq<char>
    decreases s.len(),
{
    if s.len() > 0 && spec_is_ws(s.first()) {
        spec_trim_start(s.drop_first())
    } else {
        s
    }
}

/// The text with trailing whitespace dropped.
pub open spec fn spec_trim_end(s: Seq<char>) -> Seq<char>
    decreases s.len(),
{
    if s.len() > 0 && spec_is_ws(s.last()) {
        spec_trim_end(s.drop_last())
    } else {
        s
    }
}

/// The text with whitespace dropped at both ends.
pub open spec fn spec_trim(s: Seq<char>) -> Seq<char> {
    spec_trim_end(spec_trim_start(s))
}

proof fn lemma_trim_start_skip(s: Seq<char>, a: int)
    requires
        0 <= a <= s.len(),
        forall|j: int| 0 <= j < a ==> spec_is_ws(#[trigger] s[j]),
        a == s.len() || !spec_is_ws(s[a]),
    ensures
        spec_trim_start(s) == s.skip(a),
    decreases a,
{
    if a == 0 {
        assert(s.skip(0) =~= s);
    } else {
        assert(spec_is_ws(s.first()));
        assert forall|j: int| 0 <= j < a - 1 implies spec_is_ws(#[trigger] s.drop_first()[j]) by {
            assert(s.drop_first()[j] == s[j + 1]);
        }
        if a - 1 < s.drop_first().len() {
            assert(s.drop_first()[a - 1] == s[a]);
        }
        lemma_trim_start_skip(s.drop_first(), a - 1);
        assert(s.drop_first().skip(a - 1) =~= s.skip(a));
    }
}

proof fn lemma_trim_end_take(s: Seq<char>, b: int)
    requires
        0 <= b <= s.len(),
        forall|j: int| b <= j < s.len() ==> spec_is_ws(#[trigger] s[j]),
        b == 0 || !spec_is_ws(s[b - 1]),
    ensures
        spec_trim_end(s) == s.take(b),
    decreases s.len() - b,
{
    if b == s.len() {
        if s.len() > 0 {
            assert(!spec_is_ws(s.last()));
        }
        assert(s.take(b) =~= s);
    } else {
        assert(spec_is_ws(s.last()));
        assert forall|j: int| b <= j < s.drop_last().len() implies spec_is_ws(
            #[trigger] s.drop_last()[j],
        ) by {
            assert(s.drop_last()[j] == s[j]);
        }
        if b > 0 {
            assert(s.drop_last()[b - 1] == s[b - 1]);
        }
        lemma_trim_end_take(s.drop_last(), b);
        assert(s.drop_last().take(b) =~= s.take(b));
    }
}

/// Trims ASCII whitespace from both ends.
fn trim_chars(s: &Vec<char>) -> (r: Vec<char>)
    ensures
        r@ == spec_trim(s@),
{
    let n = s.len();
    let mut a: usize = 0;
    while a < n && (s[a] == ' ' || s[a] == '\t' || s[a] == '\r' || s[a] == '\n')
        invariant
            a <= n,
            n == s@.len(),
            forall|j: int| 0 <= j < a ==> spec_is_ws(#[trigger] s@[j]),
        decreases n - a,
    {
        a += 1;
    }
    let mut b: usize = n;
    while b > a && (s[b - 1] == ' ' || s[b - 1] == '\t' || s[b - 1] == '\r' || s[b - 1] == '\n')
        invariant
            a <= b <= n,
            n == s@.len(),
            forall|j: int| 0 <= j < a ==> spec_is_ws(#[trigger] s@[j]),
            forall|j: int| b <= j < n ==> spec_is_ws(#[trigger] s@[j]),
        decreases b,
    {
        b -= 1;
    }
    proof {
        lemma_trim_start_skip(s@, a as int);
        assert forall|j: int| b - a <= j < s@.skip(a as int).len() implies spec_is_ws(
            #[trigger] s@.skip(a as int)[j],
        ) by {
            assert(s@.skip(a as int)[j] == s@[j + a]);
        }
        if b > a {
            assert(s@.skip(a as int)[b - a - 1] == s@[b - 1]);
        }
        lemma_trim_end_take(s@.skip(a as int), b - a);
    }
    let mut out: Vec<char> = Vec::new();
    let mut i: usize = a;
    while i < b
        invariant
            a <= i <= b <= n,
            n == s@.len(),
            out@ =~= s@.subrange(a as int, i as int),
        decreases b - i,
    {
        out.push(s[i]);
        i += 1;
    }
    proof {
        assert(out@ =~= s@.skip(a as int).take(b - a));
    }
    out
}

/// The text split at its first `=`: the key before it and the value after
/// it, or nothing when no `=` occurs.
pub open spec fn spec_split_eq(s: Seq<char>) -> Option<(Seq<char>, Seq<char>)>
    decreases s.len(),
{
    if s.len() == 0 {
        None
    } else if s.first() == '=' {
        Some((Seq::empty(), s.drop_first()))
    } else {
        match spec_split_eq(s.drop_first()) {
            None => None,
            Some((k, v)) => Some((seq![s.first()] + k, v)),
        }
    }
}

proof fn lemma_split_eq_at(s: Seq<char>, i: int)
    requires
        0 <= i < s.len(),
        s[i] == '=',
        forall|j: int| 0 <= j < i ==> #[trigger] s[j] != '=',
    ensures
        spec_split_eq(s) == Some((s.take(i), s.skip(i + 1))),
    decreases i,
{
    if i == 0 {
        assert(s.take(0) =~= Seq::<char>::empty());
        assert(s.skip(1) =~= s.drop_first());
    } else {
        assert forall|j: int| 0 <= j < i - 1 implies #[trigger] s.drop_first()[j] != '=' by {
            assert(s.drop_first()[j] == s[j + 1]);
        }
        assert(s.drop_first()[i - 1] == s[i]);
        lemma_split_eq_at(s.drop_first(), i - 1);
        assert(seq![s.first()] + s.drop_first().take(i - 1) =~= s.take(i));
        assert(s.drop_first().skip(i) =~= s.skip(i + 1));
    }
}

proof fn lemma_split_eq_absent(s: Seq<char>)
    requires
        forall|j: int| 0 <= j < s.len() ==> #[trigger] s[j] != '=',
    ensures
        spec_split_eq(s) is None,
    decreases s.len(),
{
    if s.len() > 0 {
        assert forall|j: int| 0 <= j < s.drop_first().len() implies #[trigger] s.drop_first()[j]
            != '=' by {
            assert(s.drop_first()[j] == s[j + 1]);
        }
        lemma_split_eq_absent(s.drop_first());
    }
}

/// Splits at the first `=`.
fn split_eq(s: &Vec<char>) -> (r: Option<(Vec<char>, Vec<char>)>)
    ensures
        match (r, spec_split_eq(s@)) {
            (None, None) => true,
            (Some(p), Some(q)) => p.0@ == q.0 && p.1@ == q.1,
            _ => false,
        },
{
    let n = s.len();
    let mut i: usize = 0;
    while i < n && s[i] != '='
        invariant
            i <= n,
            n == s@.len(),
            forall|j: int| 0 <= j < i ==> #[trigger] s@[j] != '=',
        decreases n - i,
    {
        i += 1;
    }
    if i == n {
        proof {
            lemma_split_eq_absent(s@);
        }
        return None;
    }
    proof {
        lemma_split_eq_at(s@, i as int);
    }
    let mut key: Vec<char> = Vec::new();
    let mut k: usize = 0;
    while k < i
        invariant
            k <= i <= n,
            n == s@.len(),
            key@ =~= s@.subrange(0, k as int),
        decreases i - k,
    {
        key.push(s[k]);
        k += 1;
    }
    let mut value: Vec<char> = Vec::new();
    let mut v: usize = i + 1;
    while v < n
        invariant
            i + 1 <= v <= n,
            n == s@.len(),
            value@ =~= s@.subrange(i + 1, v as int),
        decreases n - v,
    {
        value.push(s[v]);
        v += 1;
    }
    proof {
        assert(key@ =~= s@.take(i as int));
        assert(value@ =~= s@.skip(i + 1));
    }
    Some((key, value))
}

/// The Name and Exec values a scan of a desktop file's lines settles on:
/// lines are trimmed, empty and comment lines skipped, each `Name=` or
/// `Exec=` line (keys and values trimmed) overwrites the value so far, and
/// the scan stops once both are present.
pub open spec fn spec_scan_entry(
    lines: Seq<Seq<char>>,
    i: int,
    name: Option<Seq<char>>,
    exec: Option<Seq<char>>,
) -> (Option<Seq<char>>, Option<Seq<char>>)
    decreases lines.len() - i,
{
    if i < 0 || i >= lines.len() {
        (name, exec)
    } else {
        let t = spec_trim(lines[i]);
        if t.len() == 0 || t.first() == '#' {
            spec_scan_entry(lines, i + 1, name, exec)
        } else {
            let stepped = match spec_split_eq(t) {
                None => (name, exec),
                Some((k, v)) => {
                    let k2 = spec_trim(k);
                    let v2 = spec_trim(v);
                    if k2 == "Name"@ {
                        (Some(v2), exec)
                    } else if k2 == "Exec"@ {
                        (name, Some(v2))
                    } else {
                        (name, exec)
                    }
                },
            };
            if stepped.0 is Some && stepped.1 is Some {
                stepped
            } else {
                spec_scan_entry(lines, i + 1, stepped.0, stepped.1)
            }
        }
    }
}

/// Scans a desktop file's lines for its Name and Exec values, per
/// [`spec_scan_entry`].
pub fn scan_entry_lines(lines: &Vec<String>) -> (r: (Option<String>, Option<String>))
    ensures
        ({
            let spec = spec_scan_entry(lines.deep_view(), 0, None, None);
            &&& match (r.0, spec.0) {
                (Some(a), Some(b)) => a@ == b,
                (None, None) => true,
                _ => false,
            }
            &&& match (r.1, spec.1) {
                (Some(a), Some(b)) => a@ == b,
                (None, None) => true,
                _ => false,
            }
        }),
{
    let ghost lv = lines.deep_view();
    let mut name: Option<String> = None;
    let mut exec: Option<String> = None;
    let mut i: usize = 0;
    while i < lines.len()
        invariant
            i <= lines@.len(),
            lv == lines.deep_view(),
            lv.len() == lines@.len(),
            ({
                let gname = match name {
                    Some(ref a) => Some(a@),
                    None => None,
                };
                let gexec = match exec {
                    Some(ref a) => Some(a@),
                    None => None,
                };
                &&& spec_scan_entry(lv, 0, None, None) == spec_scan_entry(lv, i as int, gname, gexec)
                &&& !(gname is Some && gexec is Some)
            }),
        decreases lines@.len() - i,
    {
        let cs = chars_vec(lines[i].as_str());
        proof {
            assert(cs@ == lv[i as int]);
        }
        let t = trim_chars(&cs);
        let skip_line = t.len() == 0 || t[0] == '#';
        if !skip_line {
            match split_eq(&t) {
                None => (),
                Some((k, v)) => {
                    let k2 = trim_chars(&k);
                    let v2 = trim_chars(&v);
                    let key_string = chars_to_string(&k2);
                    if <String as PartialEq>::eq(&key_string, &"Name".to_owned()) {
                        proof {
                            assert(k2@ == "Name"@);
                        }
                        name = Some(chars_to_string(&v2));
                    } else if <String as PartialEq>::eq(&key_string, &"Exec".to_owned()) {
                        proof {
                            assert(k2@ == "Exec"@);
                        }
                        exec = Some(chars_to_string(&v2));
                    }
                },
            }
            if name.is_some() && exec.is_some() {
                return (name, exec);
            }
        }
        i += 1;
    }
    (name, exec)
}

/// The item a desktop file's lines denote: the unescaped Name as the text,
/// and the Exec key's literal arguments as the program and its arguments.
/// A file without both keys, or whose Exec key has no literal argument,
/// denotes nothing.
pub open spec fn spec_desktop_item(lines: Seq<Seq<char>>) -> Option<ItemV> {
    let scan = spec_scan_entry(lines, 0, None, None);
    match (scan.0, scan.1) {
        (Some(n), Some(e)) => {
            let name = spec_unescape(n, 0);
            let parts = spec_literal_args(
                spec_exec_key(
                    spec_unquote(spec_unescape(e, 0), 0, false, Seq::empty(), Seq::empty()),
                    0,
                ),
            );
            if parts.len() == 0 {
                None
            } else {
                Some(
                    ItemV {
                        text: name,
                        action: crate::item::ActionV::Exec {
                            program: parts.first(),
                            args: parts.drop_first(),
                            terminal: false,
                        },
                    },
                )
            }
        },
        _ => None,
    }
}

/// Parses a desktop file, given as its lines, into a launchable item, per
/// [`spec_desktop_item`].
pub fn parse_desktop_entry(lines: &Vec<String>) -> (r: Option<crate::item::Item>)
    ensures
        match (r, spec_desktop_item(lines.deep_view())) {
            (Some(item), Some(iv)) => item@ == iv,
            (None, None) => true,
            _ => false,
        },
{
    let (name, exec) = scan_entry_lines(lines);
    let name = match name {
        Some(n) => n,
        None => {
            return None;
        },
    };
    let exec = match exec {
        Some(e) => e,
        None => {
            return None;
        },
    };
    let name = unescape_string(name.as_str());
    let key = ExecKey::parse(exec.as_str());
    let mut parts = key.expand();
    if parts.len() == 0 {
        return None;
    }
    let ghost parts_view = parts.deep_view();
    let program = parts.remove(0);
    proof {
        assert(program@ == parts_view.first());
        assert(parts.deep_view() =~= parts_view.drop_first());
    }
    Some(DesktopEntry { name, program, args: parts }.into_item())
}

/// Lexicographic order on character sequences from position `i` on, by
/// code point: the order application lists are presented in.
pub open spec fn spec_lex_le_from(a: Seq<char>, b: Seq<char>, i: int) -> bool
    decreases a.len() - i,
{
    if i < 0 || i >= a.len() {
        true
    } else if i >= b.len() {
        false
    } else if (a[i] as u32) < (b[i] as u32) {
        true
    } else if (a[i] as u32) > (b[i] as u32) {
        false
    } else {
        spec_lex_le_from(a, b, i + 1)
    }
}

/// Lexicographic order on character sequences.
pub open spec fn spec_lex_le(a: Seq<char>, b: Seq<char>) -> bool {
    spec_lex_le_from(a, b, 0)
}

proof fn lemma_lex_total_from(a: Seq<char>, b: Seq<char>, i: int)
    ensures
        spec_lex_le_from(a, b, i) || spec_lex_le_from(b, a, i),
    decreases a.len() - i,
{
    if 0 <= i && i < a.len() && i < b.len() && !((a[i] as u32) < (b[i] as u32)) && !((a[i] as u32)
        > (b[i] as u32)) {
        lemma_lex_total_from(a, b, i + 1);
    }
}

proof fn lemma_lex_trans_from(a: Seq<char>, b: Seq<char>, c: Seq<char>, i: int)
    requires
        spec_lex_le_from(a, b, i),
        spec_lex_le_from(b, c, i),
    ensures
        spec_lex_le_from(a, c, i),
    decreases a.len() - i,
{
    if 0 <= i && i < a.len() && i < b.len() && i < c.len() && (a[i] as u32) == (b[i] as u32) && (
    b[i] as u32) == (c[i] as u32) {
        lemma_lex_trans_from(a, b, c, i + 1);
    }
}

/// Whether `a` sorts at or before `b`.
fn lex_le_chars(a: &Vec<char>, b: &Vec<char>) -> (r: bool)
    ensures
        r == spec_lex_le(a@, b@),
{
    let mut i: usize = 0;
    loop
        invariant
            i <= a@.len(),
            i <= b@.len(),
            spec_lex_le(a@, b@) == spec_lex_le_from(a@, b@, i as int),
        decreases a@.len() - i,
    {
        if i >= a.len() {
            return true;
        }
        if i >= b.len() {
            return false;
        }
        let ca = a[i] as u32;
        let cb = b[i] as u32;
        if ca < cb {
            return true;
        }
        if ca > cb {
            return false;
        }
        i += 1;
    }
}

/// The items with every later occurrence of an already-seen item dropped:
/// one entry per distinct item, first occurrences in order.
pub open spec fn spec_dedup_items(s: Seq<ItemV>, i: int) -> Seq<ItemV>
    decreases s.len() - i,
{
    if i < 0 || i >= s.len() {
        Seq::empty()
    } else {
        let rest = spec_dedup_items(s, i + 1);
        if exists|j: int| 0 <= j < i && s[j] == s[i] {
            rest
        } else {
            seq![s[i]] + rest
        }
    }
}

/// Drops duplicate items, keeping first occurrences in order.
pub fn dedup_items(items: Vec<crate::item::Item>) -> (r: Vec<crate::item::Item>)
    ensures
        r.deep_view() == spec_dedup_items(items.deep_view(), 0),
{
    let ghost sv = items.deep_view();
    let mut out: Vec<crate::item::Item> = Vec::new();
    let mut i: usize = 0;
    let n = items.len();
    while i < n
        invariant
            i <= n,
            n == items@.len(),
            sv == items.deep_view(),
            spec_dedup_items(sv, 0) =~= out.deep_view() + spec_dedup_items(sv, i as int),
            forall|k: int|
                0 <= k < out.deep_view().len() ==> exists|j: int|
                    0 <= j < i && sv[j] == #[trigger] out.deep_view()[k],
        decreases n - i,
    {
        let mut seen = false;
        let mut j: usize = 0;
        while j < i
            invariant
                j <= i <= n,
                i < n,
                n == items@.len(),
                sv == items.deep_view(),
                seen ==> exists|k: int| 0 <= k < i && sv[k] == sv[i as int],
                !seen ==> forall|k: int| 0 <= k < j ==> sv[k] != sv[i as int],
            ensures
                seen ==> exists|k: int| 0 <= k < i && sv[k] == sv[i as int],
                !seen ==> forall|k: int| 0 <= k < i ==> sv[k] != sv[i as int],
            decreases i - j,
        {
            if &items[j] == &items[i] {
                proof {
                    assert(sv[j as int] == sv[i as int]);
                }
                seen = true;
                break ;
            }
            proof {
                assert(sv[j as int] != sv[i as int]);
            }
            j += 1;
        }
        let ghost before = out.deep_view();
        if !seen {
            out.push(items[i].clone_item());
            proof {
                assert(out.deep_view() =~= before.push(sv[i as int]));
            }
        }
        proof {
            if seen {
            } else {
                assert(!(exists|k: int| 0 <= k < i && sv[k] == sv[i as int]));
            }
            assert(spec_dedup_items(sv, 0) =~= out.deep_view() + spec_dedup_items(sv, i + 1));
        }
        i += 1;
    }
    proof {
        assert(out.deep_view() =~= spec_dedup_items(sv, 0));
    }
    out
}

/// Inserts an item into a run sorted by text: after every entry whose text
/// sorts at or before its own, so equal texts keep their order.
pub open spec fn spec_text_insert(sorted: Seq<ItemV>, x: ItemV) -> Seq<ItemV>
    decreases sorted.len(),
{
    if sorted.len() == 0 {
        seq![x]
    } else if spec_lex_le(sorted.last().text, x.text) {
        sorted.push(x)
    } else {
        spec_text_insert(sorted.drop_last(), x).push(sorted.last())
    }
}

/// The items in ascending text order, original order among equal texts:
/// how an application list is presented.
pub open spec fn spec_text_sorted(s: Seq<ItemV>) -> Seq<ItemV>
    decreases s.len(),
{
    if s.len() == 0 {
        Seq::empty()
    } else {
        spec_text_insert(spec_text_sorted(s.drop_last()), s.last())
    }
}

/// Texts stand in ascending order.
pub open spec fn spec_sorted_by_text(s: Seq<ItemV>) -> bool {
    forall|i: int, j: int|
        0 <= i < j < s.len() ==> spec_lex_le((#[trigger] s[i]).text, (#[trigger] s[j]).text)
}

proof fn lemma_text_insert_at(sorted: Seq<ItemV>, x: ItemV, pos: int)
    requires
        spec_sorted_by_text(sorted),
        0 <= pos <= sorted.len(),
        forall|j: int| 0 <= j < pos ==> spec_lex_le((#[trigger] sorted[j]).text, x.text),
        forall|j: int| pos <= j < sorted.len() ==> !spec_lex_le((#[trigger] sorted[j]).text, x.text),
    ensures
        spec_text_insert(sorted, x) == sorted.insert(pos, x),
        spec_sorted_by_text(sorted.insert(pos, x)),
    decreases sorted.len(),
{
    if sorted.len() == 0 {
        assert(spec_text_insert(sorted, x) =~= sorted.insert(pos, x));
    } else if spec_lex_le(sorted.last().text, x.text) {
        assert(pos == sorted.len());
        assert(spec_text_insert(sorted, x) =~= sorted.insert(pos, x));
    } else {
        assert(spec_sorted_by_text(sorted.drop_last()));
        lemma_text_insert_at(sorted.drop_last(), x, pos);
        assert(spec_text_insert(sorted, x) =~= sorted.insert(pos, x));
    }
    assert forall|i: int, j: int|
        0 <= i < j < sorted.insert(pos, x).len() implies spec_lex_le(
        (#[trigger] sorted.insert(pos, x)[i]).text,
        (#[trigger] sorted.insert(pos, x)[j]).text,
    ) by {
        let s2 = sorted.insert(pos, x);
        if i < pos && j < pos {
            assert(s2[i] == sorted[i] && s2[j] == sorted[j]);
        } else if i < pos && j == pos {
            assert(s2[i] == sorted[i] && s2[j] == x);
        } else if i < pos && j > pos {
            assert(s2[i] == sorted[i] && s2[j] == sorted[j - 1]);
            if j - 1 >= pos {
                lemma_lex_total_from(sorted[j - 1].text, x.text, 0);
                lemma_lex_trans_from(sorted[i].text, x.text, sorted[j - 1].text, 0);
            }
        } else if i == pos && j > pos {
            assert(s2[i] == x && s2[j] == sorted[j - 1]);
            lemma_lex_total_from(sorted[j - 1].text, x.text, 0);
        } else {
            assert(s2[i] == sorted[i - 1] && s2[j] == sorted[j - 1]);
        }
    }
}

/// Sorts the items by text, ascending, keeping the order among equal texts.
pub fn sort_items_by_text(items: Vec<crate::item::Item>) -> (r: Vec<crate::item::Item>)
    ensures
        r.deep_view() == spec_text_sorted(items.deep_view()),
{
    let ghost sv = items.deep_view();
    let mut out: Vec<crate::item::Item> = Vec::new();
    let ghost mut gr = Seq::<ItemV>::empty();
    let n = items.len();
    let mut i: usize = 0;
    while i < n
        invariant
            i <= n,
            n == items@.len(),
            sv == items.deep_view(),
            gr == spec_text_sorted(sv.subrange(0, i as int)),
            spec_sorted_by_text(gr),
            out.deep_view() == gr,
        decreases n - i,
    {
        proof {
            assert(sv.subrange(0, i + 1).drop_last() == sv.subrange(0, i as int));
            assert(sv.subrange(0, i + 1).last() == sv[i as int]);
        }
        let item = items[i].clone_item();
        let ghost x = sv[i as int];
        let item_text = chars_vec(items[i].text.as_str());
        let mut pos: usize = out.len();
        while pos > 0
            invariant
                pos <= out.deep_view().len(),
                out.deep_view() == gr,
                spec_sorted_by_text(gr),
                item_text@ == x.text,
                sv == items.deep_view(),
                i < n,
                n == items@.len(),
                x == sv[i as int],
                forall|j: int| pos <= j < gr.len() ==> !spec_lex_le((#[trigger] gr[j]).text, x.text),
            ensures
                pos == 0 || (pos <= gr.len() && spec_lex_le(gr[pos - 1].text, x.text)),
            decreases pos,
        {
            let prev_text = chars_vec(out[pos - 1].text.as_str());
            if lex_le_chars(&prev_text, &item_text) {
                break ;
            }
            pos = pos - 1;
        }
        proof {
            if pos > 0 {
                assert(spec_lex_le(gr[pos - 1].text, x.text));
                assert forall|j: int| 0 <= j < pos implies spec_lex_le(
                    (#[trigger] gr[j]).text,
                    x.text,
                ) by {
                    if j < pos - 1 {
                        lemma_lex_trans_from(gr[j].text, gr[pos - 1].text, x.text, 0);
                    }
                }
            }
            lemma_text_insert_at(gr, x, pos as int);
            gr = spec_text_insert(gr, x);
        }
        let ghost before = out.deep_view();
        out.insert(pos, item);
        proof {
            assert(out.deep_view() =~= before.insert(pos as int, x));
        }
        i += 1;
    }
    proof {
        assert(sv.subrange(0, sv.len() as int) == sv);
    }
    out
}

/// One application parsed from a desktop file: its name and its launch
/// command.
pub struct DesktopEntry {
    pub name: String,
    pub program: String,
    pub args: Vec<String>,
}

impl DesktopEntry {
    /// The item a desktop entry becomes.
    pub fn into_item(self) -> (r: crate::item::Item)
        ensures
            r@ == (ItemV {
                text: self.name@,
                action: crate::item::ActionV::Exec {
                    program: self.program@,
                    args: self.args.deep_view(),
                    terminal: false,
                },
            }),
    {
        crate::item::Item::new(
            self.name,
            crate::item::Action::Exec { program: self.program, args: self.args, terminal: false },
        )
    }
}

} // verus!
