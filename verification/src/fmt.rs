//! The diagnostic formatter.
//!
//! [`Indented`] is the indentation engine: a stateful sink that renders a
//! possibly multi-line text as one margin-aligned block, with an optional
//! right-aligned numeric label on the first line and matching whitespace on
//! every continuation line.  On top of it sit the two rendering entry points
//! of the error object, `display` and `debug`.

use crate::chain::remaining_ref_model;
use crate::error::BacktraceStatus;
use crate::error::Error;
use crate::error::ErrorValue;
use crate::error::ErrorView;
use crate::error::Location;
use crate::error::NodeModel;
use crate::error::chain_model;
use crate::error::lemma_chain_nonempty;
use crate::error::lemma_chain_tail;
use crate::text::digit_char;
use crate::text::dec_digits;
use crate::text::fmt_dec;
use crate::text::fmt_label;
use crate::text::has_prefix;
use crate::text::label_text;
use crate::text::spaces;
use crate::text::contains_text;
use crate::text::str_has_prefix;
use crate::text::trim_end_str;
use crate::text::trim_end_text;
use vstd::prelude::*;
use vstd::string::StrSliceExecFns;
use vstd::string::StringExecFns;

verus! {

/// The prefix of the first line of a block: the label right-aligned in a
/// field of width five followed by `": "`, or plain four spaces when the
/// block carries no number.
pub open spec fn label_prefix(number: Option<usize>) -> Seq<char> {
    match number {
        Option::Some(n) => label_text(n as nat),
        Option::None => "    "@,
    }
}

/// The prefix of every continuation line: whitespace of the same width as a
/// label (seven characters), or four spaces when the block carries no number.
pub open spec fn cont_prefix(number: Option<usize>) -> Seq<char> {
    match number {
        Option::Some(_) => "       "@,
        Option::None => "    "@,
    }
}

/// The lines of a text, split at each newline character.  Always holds at
/// least one line; a trailing newline contributes a final empty line.
pub open spec fn split_lines(s: Seq<char>) -> Seq<Seq<char>>
    decreases s.len(),
{
    if s.len() == 0 {
        seq![Seq::<char>::empty()]
    } else if s[0] == '\n' {
        seq![Seq::<char>::empty()] + split_lines(s.skip(1))
    } else {
        let rest = split_lines(s.skip(1));
        seq![seq![s[0]] + rest[0]] + rest.skip(1)
    }
}

/// The lines joined back together, each line break rendered as a newline
/// followed by the continuation prefix.
pub open spec fn joined_lines(lines: Seq<Seq<char>>, number: Option<usize>) -> Seq<char>
    decreases lines.len(),
{
    if lines.len() == 0 {
        Seq::empty()
    } else if lines.len() == 1 {
        lines[0]
    } else {
        lines[0] + seq!['\n'] + cont_prefix(number) + joined_lines(lines.skip(1), number)
    }
}

/// What one write of `s` appends to the sink: the first-line prefix if no
/// line has been written yet, then the lines of `s` joined with the
/// continuation prefix after every newline.
pub open spec fn written(s: Seq<char>, number: Option<usize>, started: bool) -> Seq<char> {
    (if started {
        Seq::<char>::empty()
    } else {
        label_prefix(number)
    }) + joined_lines(split_lines(s), number)
}

/// The same text character by character: each newline of `s` is followed by
/// the continuation prefix.
pub open spec fn body_text(s: Seq<char>, number: Option<usize>) -> Seq<char>
    decreases s.len(),
{
    if s.len() == 0 {
        Seq::empty()
    } else if s[0] == '\n' {
        seq!['\n'] + cont_prefix(number) + body_text(s.skip(1), number)
    } else {
        seq![s[0]] + body_text(s.skip(1), number)
    }
}

/// Splitting a text at newlines leaves at least one line.
pub proof fn lemma_split_lines_nonempty(s: Seq<char>)
    ensures
        split_lines(s).len() >= 1,
    decreases s.len(),
{
    if s.len() == 0 {
    } else {
        lemma_split_lines_nonempty(s.skip(1));
    }
}

/// Joining the split lines of a text with the continuation prefix is the
/// same as following each newline of the text by that prefix.
pub proof fn lemma_joined_split(s: Seq<char>, number: Option<usize>)
    ensures
        joined_lines(split_lines(s), number) == body_text(s, number),
    decreases s.len(),
{
    if s.len() == 0 {
    } else {
        let rest = s.skip(1);
        lemma_joined_split(rest, number);
        lemma_split_lines_nonempty(rest);
        let r = split_lines(rest);
        let lines = split_lines(s);
        if s[0] == '\n' {
            assert(lines.skip(1) =~~= r);
            assert(joined_lines(lines, number) =~= seq!['\n'] + cont_prefix(number)
                + joined_lines(r, number));
            assert(body_text(s, number) =~= seq!['\n'] + cont_prefix(number) + body_text(
                rest,
                number,
            ));
        } else {
            if r.len() == 1 {
                assert(lines =~~= seq![seq![s[0]] + r[0]]);
                assert(joined_lines(lines, number) =~= seq![s[0]] + joined_lines(r, number));
            } else {
                assert(lines.skip(1) =~~= r.skip(1));
                assert(lines[0] =~= seq![s[0]] + r[0]);
                assert(joined_lines(lines, number) =~= seq![s[0]] + joined_lines(r, number));
            }
            assert(body_text(s, number) =~= seq![s[0]] + body_text(rest, number));
        }
    }
}

/// The indentation writer: per-render state for one margin-aligned block.
pub struct Indented {
    /// The sink the block is appended to.
    pub inner: String,
    /// The block's numeric label, if it carries one.
    pub number: Option<usize>,
    /// Whether the first line's prefix has already been emitted.
    pub started: bool,
}

impl Indented {
    /// Appends `s` to the sink as part of one aligned block.  The very first
    /// line ever written gets the label prefix; every line begun by a
    /// newline, in this call or a later one, gets the continuation prefix.
    pub fn write_str(&mut self, s: &str)
        ensures
            final(self).inner@ == old(self).inner@ + written(
                s@,
                old(self).number,
                old(self).started,
            ),
            final(self).number == old(self).number,
            final(self).started,
    {
        if !self.started {
            self.started = true;
            match self.number {
                Option::Some(n) => {
                    let lab = fmt_label(n);
                    self.inner.append(lab.as_str());
                },
                Option::None => {
                    self.inner.append("    ");
                },
            }
        }
        let ghost base = self.inner@;
        let ghost num = self.number;
        proof {
            assert(base == old(self).inner@ + (if old(self).started {
                Seq::<char>::empty()
            } else {
                label_prefix(num)
            }));
        }
        let len = s.unicode_len();
        let mut i: usize = 0;
        proof {
            assert(s@.skip(0) =~= s@);
        }
        while i < len
            invariant
                i <= len == s@.len(),
                self.number == num,
                self.started,
                self.inner@ + body_text(s@.skip(i as int), num) == base + body_text(s@, num),
            decreases len - i,
        {
            let c = s.get_char(i);
            proof {
                assert(s@.skip(i as int)[0] == s@[i as int]);
                assert(s@.skip(i as int).skip(1) =~= s@.skip(i + 1));
            }
            let ghost before = self.inner@;
            if c == '\n' {
                self.inner.append("\n");
                match self.number {
                    Option::Some(_) => self.inner.append("       "),
                    Option::None => self.inner.append("    "),
                }
                proof {
                    reveal_strlit("\n");
                    assert(self.inner@ =~= before + seq!['\n'] + cont_prefix(num));
                    assert(body_text(s@.skip(i as int), num) =~= seq!['\n'] + cont_prefix(num)
                        + body_text(s@.skip(i + 1), num));
                    assert(self.inner@ + body_text(s@.skip(i + 1), num) =~= before + body_text(
                        s@.skip(i as int),
                        num,
                    ));
                }
            } else {
                let piece = s.substring_char(i, i + 1);
                self.inner.append(piece);
                proof {
                    assert(piece@ =~= seq![s@[i as int]]);
                    assert(body_text(s@.skip(i as int), num) =~= seq![s@[i as int]] + body_text(
                        s@.skip(i + 1),
                        num,
                    ));
                    assert(self.inner@ + body_text(s@.skip(i + 1), num) =~= before + body_text(
                        s@.skip(i as int),
                        num,
                    ));
                }
            }
            i = i + 1;
        }
        proof {
            assert(s@.skip(len as int) =~= Seq::<char>::empty());
            lemma_joined_split(s@, num);
            assert(self.inner@ =~= old(self).inner@ + written(
                s@,
                old(self).number,
                old(self).started,
            ));
        }
    }
}

/// With a one-digit label, a fresh block's first line is prefixed by four
/// spaces, the digit and `": "`, and each continuation line by seven spaces.
pub proof fn lemma_one_digit_label(n: usize)
    requires
        n < 10,
    ensures
        label_prefix(Some(n)) == spaces(4) + seq![digit_char(n as nat)] + ": "@,
        cont_prefix(Some(n)) == spaces(7),
{
    reveal_strlit("       ");
    assert(dec_digits(n as nat) == seq![digit_char(n as nat)]);
    assert(label_prefix(Some(n)) =~= spaces(4) + seq![digit_char(n as nat)] + ": "@);
    assert(cont_prefix(Some(n)) =~= spaces(7)) by {
        reveal_with_fuel(spaces, 8);
    }
}

/// With a two-digit label, the prefix is three spaces, the two digits and
/// `": "` (still width five), and continuation lines use seven spaces.
pub proof fn lemma_two_digit_label(n: usize)
    requires
        10 <= n < 100,
    ensures
        label_prefix(Some(n)) == spaces(3) + seq![
            digit_char((n / 10) as nat),
            digit_char((n % 10) as nat),
        ] + ": "@,
        cont_prefix(Some(n)) == spaces(7),
{
    reveal_strlit("       ");
    assert(dec_digits((n as nat) / 10) == seq![digit_char((n / 10) as nat)]);
    assert(dec_digits(n as nat) =~= seq![digit_char((n / 10) as nat), digit_char((n % 10) as nat)]);
    assert(label_prefix(Some(n)) =~= spaces(3) + seq![
        digit_char((n / 10) as nat),
        digit_char((n % 10) as nat),
    ] + ": "@);
    assert(cont_prefix(Some(n)) =~= spaces(7)) by {
        reveal_with_fuel(spaces, 8);
    }
}

/// The messages of a chain's causes, each preceded by `": "`, in chain
/// order.
pub open spec fn colon_tail(nodes: Seq<NodeModel>) -> Seq<char>
    decreases nodes.len(),
{
    if nodes.len() == 0 {
        Seq::empty()
    } else {
        ": "@ + nodes[0].display + colon_tail(nodes.skip(1))
    }
}

/// The user-facing rendering of an error: its top message alone by default;
/// in alternate mode the top message followed by every cause's message, each
/// preceded by `": "`, on one line in chain order.
pub open spec fn rendered_display(chain: Seq<NodeModel>, alternate: bool) -> Seq<char> {
    if chain.len() == 0 {
        Seq::empty()
    } else if alternate {
        chain[0].display + colon_tail(chain.skip(1))
    } else {
        chain[0].display
    }
}

/// A source position as `<file>(<line>:<col>)`.
pub open spec fn loc_text(file: Seq<char>, line: u32, column: u32) -> Seq<char> {
    file + "("@ + dec_digits(line as nat) + ":"@ + dec_digits(column as nat) + ")"@
}

/// One cause's rendered block: a newline, then its message as a fresh
/// aligned block with the given label.
pub open spec fn block_text(n: NodeModel, number: Option<usize>) -> Seq<char> {
    seq!['\n'] + written(n.display, number, false)
}

/// The blocks of all causes from index `i` on: numbered when the chain holds
/// more than one cause, unnumbered otherwise.
pub open spec fn cause_blocks(causes: Seq<NodeModel>, multiple: bool, i: int) -> Seq<char>
    decreases causes.len(),
{
    if causes.len() == 0 {
        Seq::empty()
    } else {
        block_text(causes[0], if multiple {
            Option::Some(i as usize)
        } else {
            Option::None
        }) + cause_blocks(causes.skip(1), multiple, i + 1)
    }
}

/// The `Caused by:` section of the default debug rendering; empty when there
/// is no cause.
pub open spec fn causes_section(causes: Seq<NodeModel>) -> Seq<char> {
    if causes.len() == 0 {
        Seq::empty()
    } else {
        "\n\nCaused by:"@ + cause_blocks(causes, causes.len() >= 2, 0)
    }
}

/// The backtrace section of the default debug rendering: a blank line, then
/// the backtrace text with trailing whitespace trimmed.  Text that already
/// begins with `stack backtrace:` has its first character capitalized to
/// match the `Caused by:` header; otherwise a `Stack backtrace:` header line
/// is prepended.  Empty unless a backtrace was captured.
pub open spec fn backtrace_section(status: BacktraceStatus, text: Seq<char>) -> Seq<char> {
    if status == BacktraceStatus::Captured {
        "\n\n"@ + (if has_prefix(text, "stack backtrace:"@) {
            trim_end_text(text.update(0, 'S'))
        } else {
            "Stack backtrace:\n"@ + trim_end_text(text)
        })
    } else {
        Seq::empty()
    }
}

/// The debug rendering of an error.  In alternate mode, a structured record
/// with the location and the top value's debug form.  By default,
/// `<file>(<line>:<col>): <top message>`, then the `Caused by:` section when
/// causes exist, then the backtrace section when one was captured.
pub open spec fn rendered_debug(v: ErrorView, alternate: bool) -> Seq<char> {
    if alternate {
        "Wallee {\n    location: \""@ + loc_text(v.file, v.line, v.column) + "\",\n    error: "@
            + v.chain[0].debug + ",\n}"@
    } else {
        loc_text(v.file, v.line, v.column) + ": "@ + v.chain[0].display + causes_section(
            v.chain.skip(1),
        ) + backtrace_section(v.bt_status, v.bt_text)
    }
}

/// The location of `loc`, rendered as `<file>(<line>:<col>)`.
fn loc_string(loc: &Location) -> (r: String)
    ensures
        r@ == loc_text(loc.file@, loc.line, loc.column),
{
    let mut out = loc.file.clone();
    out.append("(");
    let line = fmt_dec(loc.line as usize);
    out.append(line.as_str());
    out.append(":");
    let column = fmt_dec(loc.column as usize);
    out.append(column.as_str());
    out.append(")");
    out
}

impl Error {
    /// The user-facing rendering: the top message, and in alternate mode
    /// every cause's message after it, each preceded by `": "`.  The default
    /// rendering is the top message alone.
    pub fn display(&self, alternate: bool) -> (r: String)
        ensures
            r@ == rendered_display(self@.chain, alternate),
    {
        let mut out = self.value.display_text.clone();
        proof {
            lemma_chain_nonempty(self.value);
            assert(self@.chain[0].display == self.value.display_text@);
        }
        if alternate {
            let mut cur: Option<&ErrorValue> = match &self.value.cause {
                Option::None => Option::None,
                Option::Some(b) => Option::Some(&**b),
            };
            proof {
                lemma_chain_tail(self.value);
                assert(remaining_ref_model(cur) =~= self@.chain.skip(1));
            }
            while cur.is_some()
                invariant
                    out@ + colon_tail(remaining_ref_model(cur)) == rendered_display(
                        self@.chain,
                        true,
                    ),
                decreases remaining_ref_model(cur).len(),
            {
                let c = cur.unwrap();
                let ghost before = out@;
                out.append(": ");
                out.append(c.display_text.as_str());
                proof {
                    lemma_chain_tail(*c);
                    assert(chain_model(*c)[0].display == c.display_text@);
                    assert(colon_tail(chain_model(*c)) =~= ": "@ + c.display_text@ + colon_tail(
                        chain_model(*c).skip(1),
                    ));
                    assert(out@ + colon_tail(chain_model(*c).skip(1)) =~= before + colon_tail(
                        chain_model(*c),
                    ));
                }
                cur = match &c.cause {
                    Option::None => Option::None,
                    Option::Some(b) => Option::Some(&**b),
                };
            }
        }
        out
    }

    /// The debug rendering.  In alternate mode, a structured record of the
    /// location and the top value's debug form.  By default, the location
    /// and top message, the `Caused by:` section listing every cause as an
    /// aligned block (numbered when there are two or more), and the captured
    /// backtrace.
    pub fn debug(&self, alternate: bool) -> (r: String)
        requires
            self@.chain.len() <= usize::MAX,
        ensures
            r@ == rendered_debug(self@, alternate),
    {
        proof {
            lemma_chain_nonempty(self.value);
            assert(self@.chain[0].display == self.value.display_text@);
            assert(self@.chain[0].debug == self.value.debug_text@);
        }
        if alternate {
            let mut out = String::from_str("Wallee {\n    location: \"");
            let loc = loc_string(&self.location);
            out.append(loc.as_str());
            out.append("\",\n    error: ");
            out.append(self.value.debug_text.as_str());
            out.append(",\n}");
            proof {
                assert(out@ =~= rendered_debug(self@, true));
            }
            return out;
        }
        let mut out = loc_string(&self.location);
        out.append(": ");
        out.append(self.value.display_text.as_str());
        let ghost head = out@;
        let ghost causes = self@.chain.skip(1);
        proof {
            lemma_chain_tail(self.value);
        }
        match &self.value.cause {
            Option::None => {
                proof {
                    assert(causes.len() == 0);
                    assert(out@ =~= head + causes_section(causes));
                }
            },
            Option::Some(first_box) => {
                let first: &ErrorValue = &**first_box;
                out.append("\n\nCaused by:");
                let multiple = first.cause.is_some();
                proof {
                    lemma_chain_nonempty(*first);
                    lemma_chain_tail(*first);
                    assert(causes =~= chain_model(*first));
                    match &first.cause {
                        Option::None => {
                            assert(causes.len() == 1);
                        },
                        Option::Some(b) => {
                            lemma_chain_nonempty(**b);
                            assert(causes.len() >= 2);
                        },
                    }
                }
                let mut cur: Option<&ErrorValue> = Option::Some(first);
                let mut n: usize = 0;
                proof {
                    assert(self@.chain.len() == 1 + causes.len());
                }
                while cur.is_some()
                    invariant
                        multiple == (causes.len() >= 2),
                        n + remaining_ref_model(cur).len() == causes.len(),
                        causes.len() + 1 <= usize::MAX,
                        out@ + cause_blocks(remaining_ref_model(cur), multiple, n as int) == head
                            + "\n\nCaused by:"@ + cause_blocks(causes, multiple, 0),
                    decreases remaining_ref_model(cur).len(),
                {
                    let c = cur.unwrap();
                    let ghost before = out@;
                    out.append("\n");
                    let lab: Option<usize> = if multiple {
                        Option::Some(n)
                    } else {
                        Option::None
                    };
                    let mut w = Indented { inner: out, number: lab, started: false };
                    w.write_str(c.display_text.as_str());
                    out = w.inner;
                    proof {
                        reveal_strlit("\n");
                        lemma_chain_nonempty(*c);
                        lemma_chain_tail(*c);
                        assert(chain_model(*c)[0].display == c.display_text@);
                        assert(cause_blocks(chain_model(*c), multiple, n as int) =~= block_text(
                            chain_model(*c)[0],
                            lab,
                        ) + cause_blocks(chain_model(*c).skip(1), multiple, n + 1));
                        assert(out@ =~= before + block_text(chain_model(*c)[0], lab));
                        assert(out@ + cause_blocks(chain_model(*c).skip(1), multiple, n + 1) =~=
                            before + cause_blocks(chain_model(*c), multiple, n as int));
                    }
                    n = n + 1;
                    cur = match &c.cause {
                        Option::None => Option::None,
                        Option::Some(b) => Option::Some(&**b),
                    };
                }
                proof {
                    assert(out@ =~= head + causes_section(causes));
                }
            },
        }
        let ghost mid = out@;
        if self.backtrace.status == BacktraceStatus::Captured {
            out.append("\n\n");
            if str_has_prefix(self.backtrace.text.as_str(), "stack backtrace:") {
                let mut cap = String::from_str("S");
                let blen = self.backtrace.text.as_str().unicode_len();
                proof {
                    reveal_strlit("stack backtrace:");
                }
                cap.append(self.backtrace.text.as_str().substring_char(1, blen));
                proof {
                    reveal_strlit("S");
                    assert(cap@ =~= self.backtrace.text@.update(0, 'S'));
                }
                let trimmed = trim_end_str(cap.as_str());
                out.append(trimmed.as_str());
            } else {
                out.append("Stack backtrace:\n");
                let trimmed = trim_end_str(self.backtrace.text.as_str());
                out.append(trimmed.as_str());
            }
            proof {
                assert(out@ =~= mid + backtrace_section(self@.bt_status, self@.bt_text));
            }
        }
        proof {
            assert(out@ =~= rendered_debug(self@, false));
        }
        out
    }
}

/// The blocks of all causes from index `i` on, each numbered.
pub open spec fn numbered_blocks(causes: Seq<NodeModel>, i: int) -> Seq<char>
    decreases causes.len(),
{
    if causes.len() == 0 {
        Seq::empty()
    } else {
        block_text(causes[0], Option::Some(i as usize)) + numbered_blocks(causes.skip(1), i + 1)
    }
}

/// With exactly one cause, its rendered block carries no leading number: the
/// section is the header followed by the cause's block with the plain
/// unnumbered prefix.
pub proof fn lemma_single_cause_unnumbered(causes: Seq<NodeModel>)
    requires
        causes.len() == 1,
    ensures
        causes_section(causes) == "\n\nCaused by:"@ + block_text(causes[0], Option::None),
{
    assert(causes.skip(1) =~= Seq::<NodeModel>::empty());
    assert(cause_blocks(Seq::<NodeModel>::empty(), false, 1) == Seq::<char>::empty());
    assert(cause_blocks(causes, false, 0) =~= block_text(causes[0], Option::None));
}

/// With two or more causes, every block is numbered with its zero-based
/// index in the chain of causes, rendered right-aligned in a field of width
/// five and followed by `": "` (the shape of `label_prefix`).
pub proof fn lemma_multiple_causes_numbered(causes: Seq<NodeModel>)
    requires
        causes.len() >= 2,
    ensures
        causes_section(causes) == "\n\nCaused by:"@ + numbered_blocks(causes, 0),
{
    lemma_cause_blocks_numbered(causes, 0);
}

proof fn lemma_cause_blocks_numbered(causes: Seq<NodeModel>, i: int)
    ensures
        cause_blocks(causes, true, i) == numbered_blocks(causes, i),
    decreases causes.len(),
{
    if causes.len() == 0 {
    } else {
        lemma_cause_blocks_numbered(causes.skip(1), i + 1);
    }
}

/// The default debug rendering holds the literal text `Caused by:` whenever
/// the error has at least one cause.  (The converse does not hold for every
/// input, since a top-level message may itself contain that text.)
pub proof fn lemma_debug_holds_caused_by(v: ErrorView)
    requires
        v.chain.len() >= 2,
    ensures
        contains_text(rendered_debug(v, false), "Caused by:"@),
{
    reveal_strlit("\n\nCaused by:");
    reveal_strlit("Caused by:");
    let s = rendered_debug(v, false);
    let p = "Caused by:"@;
    let head = loc_text(v.file, v.line, v.column) + ": "@ + v.chain[0].display;
    let i = head.len() as int + 2;
    assert(s.subrange(i, i + p.len() as int) =~= p);
    assert(0 <= i && i + p.len() <= s.len() && s.subrange(i, i + p.len() as int) == p);
}

/// Without a label, the first line and every continuation line are prefixed
/// by the same four spaces.
pub proof fn lemma_unlabeled_prefixes()
    ensures
        label_prefix(None) == spaces(4),
        cont_prefix(None) == spaces(4),
{
    reveal_strlit("    ");
    assert(label_prefix(None::<usize>) =~= spaces(4)) by {
        reveal_with_fuel(spaces, 5);
    }
}

} // verus!
