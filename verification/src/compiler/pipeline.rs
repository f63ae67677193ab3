//! The pure parts of the compile pipeline: optimization levels, the styling
//! of the command-line log, and the assembly of the final R file.
use vstd::prelude::*;
use vstd::string::StrSliceExecFns;
use vstd::string::StringExecFns;

use std::collections::VecDeque;

use crate::error::{RRCode, RRException, Stage};
use crate::mir::def::FnIR;
use crate::text::{str_eq, count_nl, decimal_v, lemma_count_nl_concat, push_char, push_decimal};

verus! {

/// How hard the compiler optimizes.
#[derive(Clone, Copy, Debug, PartialEq, Eq, Structural)]
pub enum OptLevel {
    O0,
    O1,
    O2,
}

/// The name of an optimization level, as written on the command line.
pub open spec fn opt_label(level: OptLevel) -> Seq<char> {
    match level {
        OptLevel::O0 => "O0"@,
        OptLevel::O1 => "O1"@,
        OptLevel::O2 => "O2"@,
    }
}

impl OptLevel {
    /// Whether the full optimization pipeline runs: every level but `O0`.
    pub fn is_optimized(self) -> (r: bool)
        ensures
            r == (self != OptLevel::O0),
    {
        match self {
            OptLevel::O0 => false,
            _ => true,
        }
    }

    pub fn label(self) -> (s: &'static str)
        ensures
            s@ == opt_label(self),
    {
        match self {
            OptLevel::O0 => "O0",
            OptLevel::O1 => "O1",
            OptLevel::O2 => "O2",
        }
    }
}

/// `text` wrapped in the ANSI escape sequence `code` when colors are on.
pub open spec fn style_text(color: bool, code: Seq<char>, text: Seq<char>) -> Seq<char> {
    if color {
        "\x1b["@ + code + "m"@ + text + "\x1b[0m"@
    } else {
        text
    }
}

/// `n` spaces.
pub open spec fn spaces(n: nat) -> Seq<char>
    decreases n,
{
    if n == 0 {
        Seq::empty()
    } else {
        spaces((n - 1) as nat).push(' ')
    }
}

/// `t` padded on the right with spaces to at least `width` characters.
pub open spec fn pad_right(t: Seq<char>, width: nat) -> Seq<char> {
    if t.len() >= width {
        t
    } else {
        t + spaces((width - t.len()) as nat)
    }
}

/// The styling of the command-line log: whether ANSI colors are used, and
/// whether detailed traces are shown.
pub struct CliLog {
    color: bool,
    detailed: bool,
}

impl CliLog {
    pub closed spec fn color(&self) -> bool {
        self.color
    }

    pub closed spec fn detailed(&self) -> bool {
        self.detailed
    }

    /// A log set up from its environment: colors on a terminal or when
    /// forced, and never when `NO_COLOR` is set; detailed traces on a
    /// terminal or when verbose logging is forced.
    pub fn from_env_flags(is_tty: bool, no_color: bool, force_color: bool, force_verbose: bool) -> (l:
        CliLog)
        ensures
            l.color() == ((is_tty && !no_color) || (force_color && !no_color)),
            l.detailed() == (is_tty || force_verbose),
    {
        CliLog {
            color: (is_tty && !no_color) || (force_color && !no_color),
            detailed: is_tty || force_verbose,
        }
    }

    /// `text` in the ANSI style `code` when colors are on, else unchanged.
    pub fn style(&self, code: &str, text: &str) -> (s: String)
        ensures
            s@ == style_text(self.color(), code@, text@),
    {
        if self.color {
            let mut s = String::from_str("\x1b[");
            s.append(code);
            s.append("m");
            s.append(text);
            s.append("\x1b[0m");
            s
        } else {
            String::from_str(text)
        }
    }

    pub fn dim(&self, text: &str) -> (s: String)
        ensures
            s@ == style_text(self.color(), "2"@, text@),
    {
        self.style("2", text)
    }

    pub fn red_bold(&self, text: &str) -> (s: String)
        ensures
            s@ == style_text(self.color(), "1;91"@, text@),
    {
        self.style("1;91", text)
    }

    pub fn yellow_bold(&self, text: &str) -> (s: String)
        ensures
            s@ == style_text(self.color(), "1;93"@, text@),
    {
        self.style("1;93", text)
    }

    pub fn green_bold(&self, text: &str) -> (s: String)
        ensures
            s@ == style_text(self.color(), "1;92"@, text@),
    {
        self.style("1;92", text)
    }

    pub fn cyan_bold(&self, text: &str) -> (s: String)
        ensures
            s@ == style_text(self.color(), "1;96"@, text@),
    {
        self.style("1;96", text)
    }

    pub fn magenta_bold(&self, text: &str) -> (s: String)
        ensures
            s@ == style_text(self.color(), "1;95"@, text@),
    {
        self.style("1;95", text)
    }

    pub fn white_bold(&self, text: &str) -> (s: String)
        ensures
            s@ == style_text(self.color(), "1;97"@, text@),
    {
        self.style("1;97", text)
    }

    /// The two banner lines: the compiler's name, then the input and its
    /// optimization level.
    pub fn banner_lines(&self, input: &str, level: OptLevel) -> (r: (String, String))
        ensures
            r.0@ == style_text(self.color(), "1;93"@, "[+]"@) + " "@ + style_text(
                self.color(),
                "1;91"@,
                "RR Tachyon v2.0"@,
            ),
            r.1@ == " "@ + style_text(self.color(), "2"@, "└─"@) + " "@ + style_text(
                self.color(),
                "1;97"@,
                "Input: "@ + input@ + " ("@ + opt_label(level) + ")"@,
            ),
    {
        let mut first = self.yellow_bold("[+]");
        first.append(" ");
        first.append(self.red_bold("RR Tachyon v2.0").as_str());
        let mut what = String::from_str("Input: ");
        what.append(input);
        what.append(" (");
        what.append(level.label());
        what.append(")");
        let mut second = String::from_str(" ");
        second.append(self.dim("└─").as_str());
        second.append(" ");
        second.append(self.white_bold(what.as_str()).as_str());
        (first, second)
    }

    /// The line that opens step `idx` of `total`: its tag, its title padded
    /// to 20 characters, and a detail.
    pub fn step_start_line(&self, idx: usize, total: usize, title: &str, detail: &str) -> (s:
        String)
        ensures
            s@ == style_text(self.color(), "1;96"@, "=>"@) + " "@ + style_text(
                self.color(),
                "1;95"@,
                "["@ + decimal_v(idx as nat) + "/"@ + decimal_v(total as nat) + "]"@,
            ) + " "@ + style_text(self.color(), "1;91"@, pad_right(title@, 20)) + " "@
                + style_text(self.color(), "1;93"@, detail@),
    {
        let mut tag = String::from_str("[");
        push_decimal(&mut tag, idx as u64);
        tag.append("/");
        push_decimal(&mut tag, total as u64);
        tag.append("]");
        let padded = pad_right_string(title, 20);
        let mut s = self.cyan_bold("=>");
        s.append(" ");
        s.append(self.magenta_bold(tag.as_str()).as_str());
        s.append(" ");
        s.append(self.red_bold(padded.as_str()).as_str());
        s.append(" ");
        s.append(self.yellow_bold(detail).as_str());
        s
    }

    /// The line that reports a finished step.
    pub fn step_ok_line(&self, detail: &str) -> (s: String)
        ensures
            s@ == "   "@ + style_text(self.color(), "1;92"@, "✓"@) + " "@ + style_text(
                self.color(),
                "1;97"@,
                detail@,
            ),
    {
        let mut s = String::from_str("   ");
        s.append(self.green_bold("✓").as_str());
        s.append(" ");
        s.append(self.white_bold(detail).as_str());
        s
    }

    /// The trace line for `label` and `detail`, shown only in detailed mode.
    pub fn trace_line(&self, label: &str, detail: &str) -> (r: Option<String>)
        ensures
            self.detailed() ==> (r matches Some(s) && s@ == "   "@ + style_text(
                self.color(),
                "2"@,
                "*"@,
            ) + " "@ + style_text(self.color(), "2"@, label@) + " "@ + style_text(
                self.color(),
                "2"@,
                detail@,
            )),
            !self.detailed() ==> r is None,
    {
        if self.detailed {
            let mut s = String::from_str("   ");
            s.append(self.dim("*").as_str());
            s.append(" ");
            s.append(self.dim(label).as_str());
            s.append(" ");
            s.append(self.dim(detail).as_str());
            Some(s)
        } else {
            None
        }
    }

    /// The closing line of a successful compile, with its duration.
    pub fn pulse_success_line(&self, duration: &str) -> (s: String)
        ensures
            s@ == style_text(self.color(), "1;92"@, "✔"@) + " "@ + style_text(
                self.color(),
                "1;92"@,
                "Tachyon Pulse Successful in"@,
            ) + " "@ + style_text(self.color(), "1;92"@, duration@),
    {
        let mut s = self.green_bold("✔");
        s.append(" ");
        s.append(self.green_bold("Tachyon Pulse Successful in").as_str());
        s.append(" ");
        s.append(self.green_bold(duration).as_str());
        s
    }

    /// A success message.
    pub fn success_line(&self, msg: &str) -> (s: String)
        ensures
            s@ == style_text(self.color(), "1;92"@, "✔"@) + " "@ + style_text(
                self.color(),
                "1;97"@,
                msg@,
            ),
    {
        let mut s = self.green_bold("✔");
        s.append(" ");
        s.append(self.white_bold(msg).as_str());
        s
    }

    /// A warning.
    pub fn warn_line(&self, msg: &str) -> (s: String)
        ensures
            s@ == style_text(self.color(), "1;93"@, "!"@) + " "@ + style_text(
                self.color(),
                "1;93"@,
                msg@,
            ),
    {
        let mut s = self.yellow_bold("!");
        s.append(" ");
        s.append(self.yellow_bold(msg).as_str());
        s
    }

    /// An error.
    pub fn error_line(&self, msg: &str) -> (s: String)
        ensures
            s@ == style_text(self.color(), "1;91"@, "x"@) + " "@ + style_text(
                self.color(),
                "1;91"@,
                msg@,
            ),
    {
        let mut s = self.red_bold("x");
        s.append(" ");
        s.append(self.red_bold(msg).as_str());
        s
    }
}

/// `t` padded on the right with spaces to at least `width` characters.
pub fn pad_right_string(t: &str, width: usize) -> (s: String)
    ensures
        s@ == pad_right(t@, width as nat),
{
    let len = t.unicode_len();
    let mut s = String::from_str(t);
    if len < width {
        let mut k: usize = 0;
        while k < width - len
            invariant
                len == t@.len(),
                len < width,
                k <= width - len,
                s@ == t@ + spaces(k as nat),
            decreases width - len - k,
        {
            push_char(&mut s, ' ');
            proof {
                assert(spaces((k + 1) as nat) == spaces(k as nat).push(' '));
                assert(s@ =~= t@ + spaces((k + 1) as nat));
            }
            k = k + 1;
        }
    }
    s
}

/// A duration under a second, in milliseconds: `<ms>ms`.
pub fn millis_text(ms: u64) -> (s: String)
    ensures
        s@ == decimal_v(ms as nat) + "ms"@,
{
    let mut s = String::new();
    push_decimal(&mut s, ms);
    s.append("ms");
    assert(s@ =~= decimal_v(ms as nat) + "ms"@);
    s
}

/// A size under a kilobyte, in bytes: `<n>B`.
pub fn bytes_text(bytes: usize) -> (s: String)
    ensures
        s@ == decimal_v(bytes as nat) + "B"@,
{
    let mut s = String::new();
    push_decimal(&mut s, bytes as u64);
    s.append("B");
    assert(s@ =~= decimal_v(bytes as nat) + "B"@);
    s
}

/// How one character of a source label is written inside an R string
/// literal: backslash, double quote and newline are escaped.
pub open spec fn label_escape_char(c: char) -> Seq<char> {
    if c == '\\' {
        seq!['\\', '\\']
    } else if c == '"' {
        seq!['\\', '"']
    } else if c == '\n' {
        seq!['\\', 'n']
    } else {
        seq![c]
    }
}

/// The body of an R string literal holding the source label `s`.
pub open spec fn label_escape_v(s: Seq<char>) -> Seq<char>
    decreases s.len(),
{
    if s.len() == 0 {
        Seq::empty()
    } else {
        label_escape_v(s.drop_last()) + label_escape_char(s.last())
    }
}

/// An escaped source label holds no line break, so the `rr_set_source`
/// call stays on one line.
pub proof fn lemma_label_escape_no_newline(s: Seq<char>)
    ensures
        count_nl(label_escape_v(s)) == 0,
    decreases s.len(),
{
    broadcast use lemma_count_nl_concat;

    if s.len() > 0 {
        lemma_label_escape_no_newline(s.drop_last());
        let c = s.last();
        reveal_with_fuel(count_nl, 3);
        let e = label_escape_char(c);
        assert(e.len() == 1 ==> e.drop_last() =~= Seq::<char>::empty());
        assert(e.len() == 2 ==> e.drop_last() =~= seq![e[0]] && seq![e[0]].drop_last()
            =~= Seq::<char>::empty());
    }
}

/// Escapes a source label for an R string literal.
pub fn escape_r_string(input: &str) -> (out: String)
    ensures
        out@ == label_escape_v(input@),
{
    let len = input.unicode_len();
    let mut out = String::new();
    let mut i: usize = 0;
    while i < len
        invariant
            len == input@.len(),
            i <= len,
            out@ == label_escape_v(input@.take(i as int)),
        decreases len - i,
    {
        let c = input.get_char(i);
        assert(input@.take(i + 1).drop_last() =~= input@.take(i as int));
        if c == '\\' {
            push_char(&mut out, '\\');
            push_char(&mut out, '\\');
        } else if c == '"' {
            push_char(&mut out, '\\');
            push_char(&mut out, '"');
        } else if c == '\n' {
            push_char(&mut out, '\\');
            push_char(&mut out, 'n');
        } else {
            push_char(&mut out, c);
        }
        assert(out@ =~= label_escape_v(input@.take(i + 1)));
        i = i + 1;
    }
    assert(input@.take(len as int) =~= input@);
    out
}

/// Each function's code followed by a newline.
pub open spec fn codes_text(codes: Seq<Seq<char>>) -> Seq<char>
    decreases codes.len(),
{
    if codes.len() == 0 {
        Seq::empty()
    } else {
        codes_text(codes.drop_last()) + codes.last() + "\n"@
    }
}

/// A call `name()` on a line of its own for each name.
pub open spec fn calls_text(calls: Seq<Seq<char>>) -> Seq<char>
    decreases calls.len(),
{
    if calls.len() == 0 {
        Seq::empty()
    } else {
        calls_text(calls.drop_last()) + calls.last() + "()\n"@
    }
}

/// The runtime prelude, ending in a newline.
pub open spec fn runtime_line_text(runtime: Seq<char>) -> Seq<char> {
    if runtime.len() > 0 && runtime.last() == '\n' {
        runtime
    } else {
        runtime + "\n"@
    }
}

/// The self-contained R file: the runtime prelude (ended by a newline), the
/// `rr_set_source` call naming the source, every function's code, then the
/// calls of the top-level functions.
pub open spec fn linked_text(
    runtime: Seq<char>,
    source_label: Seq<char>,
    codes: Seq<Seq<char>>,
    top_level_calls: Seq<Seq<char>>,
) -> Seq<char> {
    runtime_line_text(runtime) + "rr_set_source(\""@ + label_escape_v(source_label) + "\");\n"@
        + codes_text(codes) + calls_text(top_level_calls)
}

/// Links the emitted functions into one self-contained R file.
pub fn link_output(
    runtime: &str,
    source_label: &str,
    codes: &Vec<String>,
    top_level_calls: &Vec<String>,
) -> (out: String)
    ensures
        out@ == linked_text(
            runtime@,
            source_label@,
            codes@.map_values(|c: String| c@),
            top_level_calls@.map_values(|c: String| c@),
        ),
{
    let ghost cv = codes@.map_values(|c: String| c@);
    let ghost kv = top_level_calls@.map_values(|c: String| c@);
    let mut body = String::new();
    let mut i: usize = 0;
    while i < codes.len()
        invariant
            i <= codes@.len(),
            cv == codes@.map_values(|c: String| c@),
            body@ == codes_text(cv.take(i as int)),
        decreases codes@.len() - i,
    {
        body.append(codes[i].as_str());
        body.append("\n");
        assert(cv.take(i + 1).drop_last() =~= cv.take(i as int));
        assert(body@ =~= codes_text(cv.take(i + 1)));
        i = i + 1;
    }
    assert(cv.take(i as int) =~= cv);
    let ghost code_part = body@;
    let mut j: usize = 0;
    while j < top_level_calls.len()
        invariant
            j <= top_level_calls@.len(),
            kv == top_level_calls@.map_values(|c: String| c@),
            body@ == code_part + calls_text(kv.take(j as int)),
        decreases top_level_calls@.len() - j,
    {
        body.append(top_level_calls[j].as_str());
        body.append("()\n");
        assert(kv.take(j + 1).drop_last() =~= kv.take(j as int));
        assert(body@ =~= code_part + calls_text(kv.take(j + 1)));
        j = j + 1;
    }
    assert(kv.take(j as int) =~= kv);
    let mut out = String::from_str(runtime);
    let len = runtime.unicode_len();
    if !(len > 0 && runtime.get_char(len - 1) == '\n') {
        out.append("\n");
    }
    out.append("rr_set_source(\"");
    out.append(escape_r_string(source_label).as_str());
    out.append("\");\n");
    out.append(body.as_str());
    assert(out@ =~= linked_text(runtime@, source_label@, cv, kv));
    out
}

// ---------------------------------------------------------------------------
// Loading modules
// ---------------------------------------------------------------------------

/// A module waiting to be analyzed: its normalized path, its source text
/// and its id.
pub struct PendingModule {
    pub path: String,
    pub content: String,
    pub mod_id: usize,
}

/// What the loader holds: the paths loaded so far, in order, the modules
/// waiting to be analyzed, first to last, and the id the next module gets.
pub struct LoaderV {
    pub loaded: Seq<Seq<char>>,
    pub queue: Seq<(Seq<char>, Seq<char>, usize)>,
    pub next_mod_id: nat,
}

/// The module loader of a compile: starting from the entry module, each
/// imported path is loaded once, however many modules import it, and gets
/// the next module id.
pub struct ModuleLoader {
    loaded: Vec<String>,
    queue: VecDeque<PendingModule>,
    next_mod_id: usize,
}

pub open spec fn pending_v(m: PendingModule) -> (Seq<char>, Seq<char>, usize) {
    (m.path@, m.content@, m.mod_id)
}

impl View for ModuleLoader {
    type V = LoaderV;

    closed spec fn view(&self) -> LoaderV {
        LoaderV {
            loaded: self.loaded@.map_values(|p: String| p@),
            queue: self.queue@.map_values(|m: PendingModule| pending_v(m)),
            next_mod_id: self.next_mod_id as nat,
        }
    }
}

/// No path is loaded twice; every waiting module's path is loaded; waiting
/// modules have increasing ids, all below the next one.
pub open spec fn loader_wf(l: LoaderV) -> bool {
    &&& l.loaded.no_duplicates()
    &&& forall|k: int| 0 <= k < l.queue.len() ==> l.loaded.contains(#[trigger] l.queue[k].0)
    &&& forall|k: int| 0 <= k < l.queue.len() ==> #[trigger] l.queue[k].2 < l.next_mod_id
    &&& forall|i: int, j: int|
        0 <= i < j < l.queue.len() ==> #[trigger] l.queue[i].2 < #[trigger] l.queue[j].2
}

impl ModuleLoader {
    /// A loader holding the entry module, with id 0.
    pub fn new(entry_path: String, entry_input: String) -> (l: ModuleLoader)
        ensures
            l@ == (LoaderV {
                loaded: seq![entry_path@],
                queue: seq![(entry_path@, entry_input@, 0usize)],
                next_mod_id: 1,
            }),
            loader_wf(l@),
    {
        let mut loaded: Vec<String> = Vec::new();
        loaded.push(entry_path.clone());
        let mut queue: VecDeque<PendingModule> = VecDeque::new();
        queue.push_back(PendingModule { path: entry_path, content: entry_input, mod_id: 0 });
        let l = ModuleLoader { loaded, queue, next_mod_id: 1 };
        proof {
            assert(l@.loaded =~= seq![entry_path@]);
            assert(l@.queue =~= seq![(entry_path@, entry_input@, 0usize)]);
            assert(l@.loaded[0] == entry_path@);
        }
        l
    }

    /// Takes the first waiting module, if any.
    pub fn next_module(&mut self) -> (m: Option<PendingModule>)
        requires
            loader_wf(old(self)@),
        ensures
            match m {
                Some(x) => old(self)@.queue.len() > 0 && pending_v(x) == old(self)@.queue[0]
                    && final(self)@ == (LoaderV {
                    queue: old(self)@.queue.drop_first(),
                    ..old(self)@
                }),
                None => old(self)@.queue.len() == 0 && final(self)@ == old(self)@,
            },
            loader_wf(final(self)@),
    {
        let m = self.queue.pop_front();
        proof {
            if m is Some {
                assert(self@.queue =~= old(self)@.queue.drop_first());
            }
            assert forall|k: int| 0 <= k < self@.queue.len() implies self@.loaded.contains(
                #[trigger] self@.queue[k].0,
            ) by {
                if m is Some {
                    assert(self@.queue[k] == old(self)@.queue[k + 1]);
                }
            }
            assert forall|k: int| 0 <= k < self@.queue.len() implies #[trigger] self@.queue[k].2
                < self@.next_mod_id by {
                if m is Some {
                    assert(self@.queue[k] == old(self)@.queue[k + 1]);
                }
            }
            assert forall|i: int, j: int| 0 <= i < j < self@.queue.len() implies #[trigger] self@.queue[i].2
                < #[trigger] self@.queue[j].2 by {
                if m is Some {
                    assert(self@.queue[i] == old(self)@.queue[i + 1]);
                    assert(self@.queue[j] == old(self)@.queue[j + 1]);
                }
            }
        }
        m
    }

    /// The id the next loaded module gets.
    pub fn next_id(&self) -> (r: usize)
        ensures
            r == self@.next_mod_id,
    {
        self.next_mod_id
    }

    /// Whether `target` has been loaded already.
    pub fn is_loaded(&self, target: &str) -> (r: bool)
        ensures
            r == self@.loaded.contains(target@),
    {
        let mut i: usize = 0;
        while i < self.loaded.len()
            invariant
                i <= self.loaded@.len(),
                forall|k: int| 0 <= k < i ==> self.loaded@[k]@ != target@,
            decreases self.loaded@.len() - i,
        {
            if str_eq(self.loaded[i].as_str(), target) {
                assert(self@.loaded[i as int] == target@);
                return true;
            }
            i = i + 1;
        }
        proof {
            if self@.loaded.contains(target@) {
                let k = choose|k: int| 0 <= k < self@.loaded.len() && self@.loaded[k] == target@;
                assert(self.loaded@[k]@ == target@);
            }
        }
        false
    }

    /// Loads the module at `target`, not loaded before, with its source
    /// text: it waits behind the others and gets the next id.
    pub fn add_module(&mut self, target: String, content: String) -> (id: usize)
        requires
            loader_wf(old(self)@),
            !old(self)@.loaded.contains(target@),
            old(self)@.next_mod_id < usize::MAX,
        ensures
            id == old(self)@.next_mod_id,
            final(self)@ == (LoaderV {
                loaded: old(self)@.loaded.push(target@),
                queue: old(self)@.queue.push((target@, content@, id)),
                next_mod_id: old(self)@.next_mod_id + 1,
            }),
            loader_wf(final(self)@),
    {
        let id = self.next_mod_id;
        self.loaded.push(target.clone());
        self.queue.push_back(PendingModule { path: target, content, mod_id: id });
        self.next_mod_id = self.next_mod_id + 1;
        proof {
            assert(self@.loaded =~= old(self)@.loaded.push(target@));
            assert(self@.queue =~= old(self)@.queue.push((target@, content@, id)));
            assert forall|k: int| 0 <= k < self@.queue.len() implies self@.loaded.contains(
                #[trigger] self@.queue[k].0,
            ) by {
                if k < old(self)@.queue.len() {
                    assert(self@.queue[k] == old(self)@.queue[k]);
                    let j = choose|j: int| 0 <= j < old(self)@.loaded.len() && old(self)@.loaded[j]
                        == old(self)@.queue[k].0;
                    assert(self@.loaded[j] == old(self)@.loaded[j]);
                } else {
                    assert(self@.loaded[old(self)@.loaded.len() as int] == target@);
                }
            }
            assert forall|i: int, j: int| 0 <= i < j < self@.queue.len() implies #[trigger] self@.queue[i].2
                < #[trigger] self@.queue[j].2 by {
                assert(self@.queue[i] == old(self)@.queue.push((target@, content@, id))[i]);
                assert(self@.queue[j] == old(self)@.queue.push((target@, content@, id))[j]);
                if j == old(self)@.queue.len() {
                    assert(self@.queue[i].2 == old(self)@.queue[i].2);
                }
            }
            assert forall|i: int, j: int|
                0 <= i < self@.loaded.len() && 0 <= j < self@.loaded.len() && i != j implies self@.loaded[i]
                != self@.loaded[j] by {
                if i == old(self)@.loaded.len() {
                    assert(old(self)@.loaded[j] == self@.loaded[j]);
                } else if j == old(self)@.loaded.len() {
                    assert(old(self)@.loaded[i] == self@.loaded[i]);
                } else {
                    assert(old(self)@.loaded[i] == self@.loaded[i]);
                    assert(old(self)@.loaded[j] == self@.loaded[j]);
                }
            }
        }
        id
    }
}

/// The diagnostic for an imported module that could not be read.
pub fn import_error(target: &str, reason: &str) -> (e: RRException)
    ensures
        e.module@ == "RR.ParseError"@,
        e.code == RRCode::E0001,
        e.stage == Stage::Parse,
        e.message@ == "failed to load imported module '"@ + target@ + "': "@ + reason@,
        e.frames@.len() == 0,
{
    let mut msg = String::from_str("failed to load imported module '");
    msg.append(target);
    msg.append("': ");
    msg.append(reason);
    RRException::new("RR.ParseError", RRCode::E0001, Stage::Parse, msg.as_str())
}

// ---------------------------------------------------------------------------
// Decisions of the compile steps
// ---------------------------------------------------------------------------

/// The title and detail of the optimization step: the full pipeline when
/// optimizing, stabilization only otherwise.
pub fn opt_step_labels(optimize: bool) -> (r: (&'static str, &'static str))
    ensures
        optimize ==> r.0@ == "Tachyon Optimization"@ && r.1@ == "execute aggressive passes"@,
        !optimize ==> r.0@ == "Tachyon Stabilization"@ && r.1@
            == "execute safe stabilization passes"@,
{
    if optimize {
        ("Tachyon Optimization", "execute aggressive passes")
    } else {
        ("Tachyon Stabilization", "execute safe stabilization passes")
    }
}

/// The name of the function that runs a module's top-level statements.
pub fn top_level_fn_name(mod_id: u32) -> (s: String)
    ensures
        s@ == "Sym_top_"@ + decimal_v(mod_id as nat),
{
    let mut s = String::from_str("Sym_top_");
    push_decimal(&mut s, mod_id as u64);
    s
}

/// Names separated by `", "`.
pub open spec fn joined(s: Seq<Seq<char>>) -> Seq<char>
    decreases s.len(),
{
    if s.len() == 0 {
        Seq::empty()
    } else if s.len() == 1 {
        s[0]
    } else {
        joined(s.drop_last()) + ", "@ + s.last()
    }
}

/// The warning for a function that falls back to dynamic evaluation, with
/// the reasons when there are any; none for other functions.
pub fn fallback_warning(fn_ir: &FnIR) -> (r: Option<String>)
    ensures
        !fn_ir.unsupported_dynamic ==> r is None,
        fn_ir.unsupported_dynamic && fn_ir.fallback_reasons@.len() == 0 ==> (r matches Some(w)
            && w@ == "Hybrid fallback enabled for "@ + fn_ir.name@ + " (dynamic feature)"@),
        fn_ir.unsupported_dynamic && fn_ir.fallback_reasons@.len() > 0 ==> (r matches Some(w)
            && w@ == "Hybrid fallback enabled for "@ + fn_ir.name@ + ": "@ + joined(
            fn_ir.fallback_reasons@.map_values(|x: String| x@),
        )),
{
    if !fn_ir.unsupported_dynamic {
        return None;
    }
    let mut w = String::from_str("Hybrid fallback enabled for ");
    w.append(fn_ir.name.as_str());
    if fn_ir.fallback_reasons.len() == 0 {
        w.append(" (dynamic feature)");
        return Some(w);
    }
    w.append(": ");
    let ghost pre = w@;
    let ghost rv = fn_ir.fallback_reasons@.map_values(|x: String| x@);
    let mut i: usize = 0;
    while i < fn_ir.fallback_reasons.len()
        invariant
            i <= fn_ir.fallback_reasons@.len(),
            rv == fn_ir.fallback_reasons@.map_values(|x: String| x@),
            w@ == pre + joined(rv.take(i as int)),
        decreases fn_ir.fallback_reasons@.len() - i,
    {
        if i > 0 {
            w.append(", ");
        }
        w.append(fn_ir.fallback_reasons[i].as_str());
        proof {
            assert(rv.take(i + 1).drop_last() =~= rv.take(i as int));
            if i == 0 {
                assert(joined(rv.take(1)) == rv.take(1)[0]);
            }
            assert(w@ =~= pre + joined(rv.take(i + 1)));
        }
        i = i + 1;
    }
    assert(rv.take(i as int) =~= rv);
    Some(w)
}

} // verus!
