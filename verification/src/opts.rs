//! Help text for stage options, and the dash convention for naming them.
//! Every option declares its aliases and a one-line description; the pair
//! they render to is what a catalog listing shows.

use vstd::prelude::*;

use vstd::string::StringExecFns;
use vstd::string::StringSliceAdditionalSpecFns;

verus! {

/// How one option is matched: by named aliases taking a fixed number of
/// argument tokens, or as a handler of leftover arguments, one at a time
/// (soft) or all at once (hard).
pub enum OptShape {
    Named(Vec<String>, usize),
    ExtraSoft,
    ExtraHard,
}

/// The help text attached to one option: an optional metavariable for its
/// arguments and an optional message.
pub struct OptionsHelp {
    pub meta: Option<String>,
    pub msg: Option<String>,
}

/// An alias rendered with its dash prefix: one dash for a single-byte
/// alias, two dashes otherwise.
pub open spec fn dash_mark(a: Seq<char>) -> Seq<char> {
    if (vstd::utf8::encode_utf8(a).len() as usize) > 1 {
        seq!['-', '-'] + a
    } else {
        seq!['-'] + a
    }
}

/// All aliases rendered, separated by a vertical bar.
pub open spec fn aliases_lhs(aliases: Seq<Seq<char>>) -> Seq<char>
    decreases aliases.len(),
{
    if aliases.len() == 0 {
        Seq::empty()
    } else if aliases.len() == 1 {
        dash_mark(aliases[0])
    } else {
        aliases_lhs(aliases.drop_last()) + seq!['|'] + dash_mark(aliases.last())
    }
}

/// The default argument placeholders: one ` <arg>` per expected token.
pub open spec fn arg_placeholders(argct: int) -> Seq<char>
    decreases argct,
{
    if argct <= 0 {
        Seq::empty()
    } else {
        arg_placeholders(argct - 1) + seq![' ', '<', 'a', 'r', 'g', '>']
    }
}

/// The left-hand side of one help line.
pub open spec fn shape_lhs(m: OptShape, meta: Option<Seq<char>>) -> Seq<char> {
    match m {
        OptShape::Named(aliases, argct) => {
            let names = aliases_lhs(aliases@.map_values(|s: String| s@));
            if argct > 0 {
                match meta {
                    Some(s) => names + seq![' '] + s,
                    None => names + arg_placeholders(argct as int),
                }
            } else {
                names
            }
        },
        OptShape::ExtraSoft => match meta {
            Some(s) => s,
            None => seq!['<', 'a', 'r', 'g', '>'],
        },
        OptShape::ExtraHard => match meta {
            Some(s) => s,
            None => seq!['<', 'a', 'r', 'g', 's', '>'],
        },
    }
}

pub open spec fn opt_meta(h: OptionsHelp) -> Option<Seq<char>> {
    match h.meta {
        Some(s) => Some(s@),
        None => None,
    }
}

pub open spec fn opt_msg(h: OptionsHelp) -> Seq<char> {
    match h.msg {
        Some(s) => s@,
        None => Seq::empty(),
    }
}

impl OptionsHelp {
    /// Renders one option as the pair a help listing shows: the rendered
    /// aliases or metavariable on the left, the message on the right.
    #[verifier::loop_isolation(false)]
    pub fn to_pair(&self, m: &OptShape) -> (r: (String, String))
        ensures
            r.0@ == shape_lhs(*m, opt_meta(*self)),
            r.1@ == opt_msg(*self),
    {
        proof {
            reveal_strlit("|");
            reveal_strlit("-");
            reveal_strlit(" ");
            reveal_strlit("<arg>");
            reveal_strlit("<args>");
            reveal_strlit(" <arg>");
        }
        let mut lhs: String;
        match m {
            OptShape::Named(aliases, argct) => {
                let ghost avs = aliases@.map_values(|s: String| s@);
                lhs = String::new();
                let mut i: usize = 0;
                while i < aliases.len()
                    invariant
                        0 <= i <= aliases@.len(),
                        lhs@ == aliases_lhs(avs.take(i as int)),
                    decreases aliases@.len() - i,
                {
                    let ghost pre = lhs@;
                    if i > 0 {
                        lhs.append("|");
                    }
                    let ghost p1 = lhs@;
                    lhs.append("-");
                    let al = aliases[i].as_str();
                    proof {
                        assert(al@ == avs[i as int]);
                        assert(al.spec_bytes() == vstd::utf8::encode_utf8(avs[i as int]));
                    }
                    let wide = al.len() > 1;
                    if wide {
                        lhs.append("-");
                    }
                    let ghost p2 = lhs@;
                    lhs.append(al);
                    proof {
                        reveal_strlit("|");
                        reveal_strlit("-");
                        assert("|"@ =~= seq!['|']);
                        assert("-"@ =~= seq!['-']);
                        assert(avs[i as int] == aliases@[i as int]@);
                        assert(wide == ((vstd::utf8::encode_utf8(avs[i as int]).len() as usize)
                            > 1));
                        assert(p1 == if i > 0 {
                            pre + seq!['|']
                        } else {
                            pre
                        });
                        assert(p2 == if wide {
                            p1 + seq!['-'] + seq!['-']
                        } else {
                            p1 + seq!['-']
                        });
                        assert(lhs@ == p2 + avs[i as int]);
                        if wide {
                            assert(p2 + avs[i as int] =~= p1 + (seq!['-', '-'] + avs[i as int]));
                            assert(lhs@ == p1 + dash_mark(avs[i as int]));
                        } else {
                            assert(p2 + avs[i as int] =~= p1 + (seq!['-'] + avs[i as int]));
                            assert(lhs@ == p1 + dash_mark(avs[i as int]));
                        }
                        assert(avs.take(i + 1).drop_last() =~= avs.take(i as int));
                        assert(avs.take(i + 1).last() == avs[i as int]);
                        if i == 0 {
                            assert(aliases_lhs(avs.take(1)) == dash_mark(avs.take(1)[0]));
                            assert(avs.take(1)[0] == avs[0]);
                            assert(lhs@ =~= aliases_lhs(avs.take(1)));
                        } else {
                            assert(aliases_lhs(avs.take(i + 1)) == aliases_lhs(avs.take(i as int))
                                + seq!['|'] + dash_mark(avs[i as int]));
                            assert(lhs@ =~= aliases_lhs(avs.take(i + 1)));
                        }
                    }
                    i = i + 1;
                }
                proof {
                    assert(avs.take(aliases@.len() as int) =~= avs);
                }
                if *argct > 0 {
                    match &self.meta {
                        Some(s) => {
                            lhs.append(" ");
                            lhs.append(s.as_str());
                        },
                        None => {
                            let mut c: usize = 0;
                            while c < *argct
                                invariant
                                    0 <= c <= *argct,
                                    lhs@ == aliases_lhs(avs) + arg_placeholders(c as int),
                                decreases *argct - c,
                            {
                                lhs.append(" <arg>");
                                proof {
                                    assert(" <arg>"@ =~= seq![' ', '<', 'a', 'r', 'g', '>']);
                                }
                                c = c + 1;
                            }
                        },
                    }
                }
            },
            OptShape::ExtraSoft => {
                match &self.meta {
                    Some(s) => {
                        lhs = s.clone();
                    },
                    None => {
                        lhs = String::from_str("<arg>");
                        proof {
                            assert(lhs@ =~= seq!['<', 'a', 'r', 'g', '>']);
                        }
                    },
                }
            },
            OptShape::ExtraHard => {
                match &self.meta {
                    Some(s) => {
                        lhs = s.clone();
                    },
                    None => {
                        lhs = String::from_str("<args>");
                        proof {
                            assert(lhs@ =~= seq!['<', 'a', 'r', 'g', 's', '>']);
                        }
                    },
                }
            },
        }
        let rhs = match &self.msg {
            Some(s) => s.clone(),
            None => String::new(),
        };
        (lhs, rhs)
    }
}

/// A value that renders to the message part of a help line.
pub trait ToOptionsHelpString: Sized {
    spec fn spec_help_string(self) -> Seq<char>;

    fn to_help_string(self) -> (r: String)
        ensures
            r@ == self.spec_help_string(),
    ;
}

impl ToOptionsHelpString for String {
    open spec fn spec_help_string(self) -> Seq<char> {
        self@
    }

    fn to_help_string(self) -> (r: String) {
        self
    }
}

impl ToOptionsHelpString for &str {
    open spec fn spec_help_string(self) -> Seq<char> {
        self@
    }

    fn to_help_string(self) -> (r: String) {
        self.to_owned()
    }
}

/// A value that declares an option's help: nothing, a message, or a
/// metavariable together with a message.
pub trait ToOptionsHelp: Sized {
    spec fn spec_help(self) -> Option<(Option<Seq<char>>, Option<Seq<char>>)>;

    fn to_help(self) -> (r: Option<OptionsHelp>)
        ensures
            match r {
                Some(h) => self.spec_help() matches Some(p) && opt_meta(h) == p.0 && (match h
                    .msg {
                    Some(s) => Some(s@),
                    None => None,
                }) == p.1,
                None => self.spec_help() is None,
            },
    ;
}

impl ToOptionsHelp for () {
    open spec fn spec_help(self) -> Option<(Option<Seq<char>>, Option<Seq<char>>)> {
        Some((None, None))
    }

    fn to_help(self) -> (r: Option<OptionsHelp>) {
        Some(OptionsHelp { meta: None, msg: None })
    }
}

impl<S: ToOptionsHelpString> ToOptionsHelp for S {
    open spec fn spec_help(self) -> Option<(Option<Seq<char>>, Option<Seq<char>>)> {
        Some((None, Some(self.spec_help_string())))
    }

    fn to_help(self) -> (r: Option<OptionsHelp>) {
        Some(OptionsHelp { meta: None, msg: Some(self.to_help_string()) })
    }
}

impl<S1: ToOptionsHelpString, S2: ToOptionsHelpString> ToOptionsHelp for (S1, S2) {
    open spec fn spec_help(self) -> Option<(Option<Seq<char>>, Option<Seq<char>>)> {
        Some((Some(self.0.spec_help_string()), Some(self.1.spec_help_string())))
    }

    fn to_help(self) -> (r: Option<OptionsHelp>) {
        Some(OptionsHelp { meta: Some(self.0.to_help_string()), msg: Some(self.1.to_help_string()) })
    }
}

/// Marks an option as carrying no help line at all: it is only ever used
/// as the absent case of an `Option`.
pub enum NoHelp {
    Omitted,
}

impl ToOptionsHelp for Option<NoHelp> {
    open spec fn spec_help(self) -> Option<(Option<Seq<char>>, Option<Seq<char>>)> {
        None
    }

    fn to_help(self) -> (r: Option<OptionsHelp>) {
        None
    }
}

/// The dash convention on an argument token, over its byte form: two
/// leading dashes or one name an option; anything else is no option name.
pub open spec fn spec_name_from_arg(bytes: Seq<u8>) -> Option<Seq<u8>> {
    if bytes.len() >= 2 && bytes[0] == 45 && bytes[1] == 45 {
        Some(bytes.skip(2))
    } else if bytes.len() >= 1 && bytes[0] == 45 {
        Some(bytes.skip(1))
    } else {
        None
    }
}

/// Strips the dash prefix off an option token, if it has one.
pub fn name_from_arg(name: &str) -> (r: Option<&str>)
    ensures
        match r {
            Some(t) => spec_name_from_arg(name.spec_bytes()) == Some(t.spec_bytes()),
            None => spec_name_from_arg(name.spec_bytes()) is None,
        },
{
    let bytes = name.as_bytes();
    if bytes.len() >= 2 && bytes[0] == 45 && bytes[1] == 45 {
        proof {
            lemma_ascii_boundary(name, 1);
            lemma_ascii_boundary(name, 2);
        }
        let (_, rest) = name.split_at(2);
        proof {
            assert(rest.spec_bytes() =~= name.spec_bytes().skip(2));
        }
        Some(rest)
    } else if bytes.len() >= 1 && bytes[0] == 45 {
        proof {
            lemma_ascii_boundary(name, 1);
        }
        let (_, rest) = name.split_at(1);
        proof {
            assert(rest.spec_bytes() =~= name.spec_bytes().skip(1));
        }
        Some(rest)
    } else {
        None
    }
}

/// In a string whose first `k` bytes are ASCII, byte position `k` is a
/// character boundary.
proof fn lemma_ascii_boundary(s: &str, k: int)
    requires
        0 <= k <= s.spec_bytes().len(),
        forall|i: int| 0 <= i < k ==> #[trigger] s.spec_bytes()[i] < 128,
    ensures
        vstd::utf8::is_char_boundary(s.spec_bytes(), k),
    decreases k,
{
    vstd::utf8::encode_utf8_valid_utf8(s@);
    lemma_ascii_boundary_bytes(s.spec_bytes(), k);
}

proof fn lemma_ascii_boundary_bytes(bytes: Seq<u8>, k: int)
    requires
        vstd::utf8::valid_utf8(bytes),
        0 <= k <= bytes.len(),
        forall|i: int| 0 <= i < k ==> #[trigger] bytes[i] < 128,
    ensures
        vstd::utf8::is_char_boundary(bytes, k),
    decreases k,
{
    if k > 0 {
        assert(bytes.len() > 0);
        assert(bytes[0] < 128);
        lemma_ascii_boundary_bytes(vstd::utf8::pop_first_scalar(bytes), k - 1);
    }
}

} // verus!
