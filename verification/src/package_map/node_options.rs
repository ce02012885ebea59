//! The `--experimental-package-map` option of `NODE_OPTIONS`.
use vstd::prelude::*;

use crate::text::{chars_to_string, starts_with_chars, str_chars, sub_chars};

verus! {

/// Where the tokenizer stands after some prefix of the text: the arguments so far, whether a
/// double quote is open, whether the next character starts a new argument, and whether a
/// backslash inside quotes is waiting for the character it escapes.
pub struct TokenizerState {
    pub arguments: Seq<Seq<char>>,
    pub in_string: bool,
    pub new_argument: bool,
    pub escaped: bool,
}

pub open spec fn initial_tokenizer_state() -> TokenizerState {
    TokenizerState { arguments: Seq::empty(), in_string: false, new_argument: true, escaped: false }
}

/// Append `c` to the current argument, or start a new argument with it.
pub open spec fn push_char(st: TokenizerState, c: char) -> TokenizerState {
    if st.new_argument || st.arguments.len() == 0 {
        TokenizerState { arguments: st.arguments.push(seq![c]), new_argument: false, ..st }
    } else {
        TokenizerState {
            arguments: st.arguments.update(
                st.arguments.len() - 1,
                st.arguments.last().push(c),
            ),
            ..st
        }
    }
}

/// One character of `NODE_OPTIONS`, as Node's `ParseNodeOptionsEnvVar` reads it: spaces
/// separate arguments, double quotes group text, and inside quotes a backslash makes the next
/// character literal.
pub open spec fn tokenizer_step(st: TokenizerState, c: char) -> TokenizerState {
    if st.escaped {
        push_char(TokenizerState { escaped: false, ..st }, c)
    } else if c == '\\' && st.in_string {
        TokenizerState { escaped: true, ..st }
    } else if c == ' ' && !st.in_string {
        TokenizerState { new_argument: true, ..st }
    } else if c == '"' {
        TokenizerState { in_string: !st.in_string, ..st }
    } else {
        push_char(st, c)
    }
}

pub open spec fn tokenizer_fold(s: Seq<char>) -> TokenizerState
    decreases s.len(),
{
    if s.len() == 0 {
        initial_tokenizer_state()
    } else {
        tokenizer_step(tokenizer_fold(s.drop_last()), s.last())
    }
}

/// The arguments of `NODE_OPTIONS`; `None` when a quote is left open or the text ends with a
/// quoted backslash.
pub open spec fn spec_parse_node_options(s: Seq<char>) -> Option<Seq<Seq<char>>> {
    let st = tokenizer_fold(s);
    if st.in_string || st.escaped {
        None
    } else {
        Some(st.arguments)
    }
}

pub open spec fn flag_chars() -> Seq<char> {
    seq![
        '-', '-', 'e', 'x', 'p', 'e', 'r', 'i', 'm', 'e', 'n', 't', 'a', 'l', '-', 'p', 'a', 'c',
        'k', 'a', 'g', 'e', '-', 'm', 'a', 'p',
    ]
}

pub open spec fn flag_eq_chars() -> Seq<char> {
    flag_chars().push('=')
}

/// The value given to the flag by `args[i + 1]`, when there is one: it must be non-empty and
/// must not look like another option.
pub open spec fn spec_flag_value(args: Seq<Seq<char>>, i: int) -> Option<Seq<char>> {
    if i + 1 < args.len() && args[i + 1].len() > 0 && args[i + 1][0] != '-' {
        Some(args[i + 1])
    } else {
        None
    }
}

/// The package-map path after reading `args` from index `i` on, `acc` being the path that the
/// arguments before `i` set. Each occurrence of the option replaces the earlier ones.
pub open spec fn spec_map_path_from(args: Seq<Seq<char>>, i: int, acc: Option<Seq<char>>) -> Option<Seq<char>>
    decreases args.len() - i,
{
    if i < 0 || i >= args.len() {
        acc
    } else {
        let a = args[i];
        if flag_eq_chars().len() <= a.len() && a.take(flag_eq_chars().len() as int) == flag_eq_chars() {
            let value = a.skip(flag_eq_chars().len() as int);
            spec_map_path_from(args, i + 1, if value.len() > 0 { Some(value) } else { None })
        } else if a == flag_chars() {
            if i + 1 < args.len() {
                spec_map_path_from(args, i + 2, spec_flag_value(args, i))
            } else {
                None
            }
        } else {
            spec_map_path_from(args, i + 1, acc)
        }
    }
}

/// The package-map path that `NODE_OPTIONS` selects, as written there.
pub open spec fn spec_node_options_map_path(node_options: Seq<char>) -> Option<Seq<char>> {
    match spec_parse_node_options(node_options) {
        Some(args) => spec_map_path_from(args, 0, None),
        None => None,
    }
}

pub open spec fn args_view(v: Seq<Vec<char>>) -> Seq<Seq<char>> {
    v.map_values(|a: Vec<char>| a@)
}

/// Split `NODE_OPTIONS` into arguments (see [`spec_parse_node_options`]).
pub fn parse_node_options(node_options: &str) -> (r: Option<Vec<String>>)
    ensures
        match spec_parse_node_options(node_options@) {
            Some(args) => r matches Some(v) && v@.len() == args.len() && forall|k: int|
                0 <= k < args.len() ==> (#[trigger] v@[k])@ == args[k],
            None => r is None,
        },
{
    let chars = str_chars(node_options);
    let mut arguments: Vec<Vec<char>> = Vec::new();
    let mut in_string = false;
    let mut new_argument = true;
    let mut escaped = false;
    let mut i: usize = 0;
    while i < chars.len()
        invariant
            i <= chars@.len(),
            chars@ == node_options@,
            ({
                let st = tokenizer_fold(chars@.take(i as int));
                &&& args_view(arguments@) == st.arguments
                &&& in_string == st.in_string
                &&& new_argument == st.new_argument
                &&& escaped == st.escaped
            }),
        decreases chars.len() - i,
    {
        let c = chars[i];
        let ghost before = args_view(arguments@);
        proof {
            assert(chars@.take(i as int + 1).drop_last() =~= chars@.take(i as int));
            assert(chars@.take(i as int + 1).last() == c);
        }
        let push = if escaped {
            escaped = false;
            true
        } else if c == '\\' && in_string {
            escaped = true;
            false
        } else if c == ' ' && !in_string {
            new_argument = true;
            false
        } else if c == '"' {
            in_string = !in_string;
            false
        } else {
            true
        };
        if push {
            if new_argument || arguments.len() == 0 {
                let mut single: Vec<char> = Vec::new();
                single.push(c);
                proof {
                    assert(single@ =~= seq![c]);
                }
                arguments.push(single);
                new_argument = false;
                proof {
                    assert(args_view(arguments@) =~= before.push(seq![c]));
                }
            } else {
                let last = arguments.len() - 1;
                let mut current = arguments[last].clone();
                current.push(c);
                arguments.set(last, current);
                proof {
                    assert(args_view(arguments@) =~= before.update(before.len() - 1, before.last().push(c)));
                }
            }
        }
        i = i + 1;
    }
    proof {
        assert(chars@.take(chars@.len() as int) =~= chars@);
    }
    if in_string || escaped {
        return None;
    }
    let mut out: Vec<String> = Vec::new();
    let mut k: usize = 0;
    while k < arguments.len()
        invariant
            k <= arguments@.len(),
            out@.len() == k,
            forall|j: int| 0 <= j < k ==> (#[trigger] out@[j])@ == arguments@[j]@,
        decreases arguments.len() - k,
    {
        out.push(chars_to_string(arguments[k].as_slice()));
        k = k + 1;
    }
    Some(out)
}

/// Extracts the last `--experimental-package-map` path from `NODE_OPTIONS`.
///
/// Tokenization follows Node's `ParseNodeOptionsEnvVar` quoting and escaping rules. Both the
/// `--experimental-package-map=<path>` and `--experimental-package-map <path>` forms are
/// accepted.
pub fn package_map_path_from_node_options(node_options: &str) -> (r: Option<String>)
    ensures
        match spec_node_options_map_path(node_options@) {
            Some(p) => r matches Some(s) && s@ == p,
            None => r is None,
        },
{
    let arguments = match parse_node_options(node_options) {
        Some(a) => a,
        None => return None,
    };
    let ghost args = spec_parse_node_options(node_options@)->Some_0;
    let flag: Vec<char> = vec![
        '-', '-', 'e', 'x', 'p', 'e', 'r', 'i', 'm', 'e', 'n', 't', 'a', 'l', '-', 'p', 'a', 'c',
        'k', 'a', 'g', 'e', '-', 'm', 'a', 'p',
    ];
    let mut flag_eq = flag.clone();
    flag_eq.push('=');
    proof {
        assert(flag@ =~= flag_chars());
        assert(flag_eq@ =~= flag_eq_chars());
    }
    let mut package_map_path: Option<String> = None;
    let mut index: usize = 0;
    while index < arguments.len()
        invariant
            index <= arguments@.len() + 1,
            arguments@.len() == args.len(),
            forall|k: int| 0 <= k < args.len() ==> (#[trigger] arguments@[k])@ == args[k],
            flag@ == flag_chars(),
            flag_eq@ == flag_eq_chars(),
            spec_node_options_map_path(node_options@) == spec_map_path_from(
                args,
                index as int,
                match package_map_path {
                    Some(p) => Some(p@),
                    None => None,
                },
            ),
        decreases arguments.len() + 1 - index,
    {
        let argument = str_chars(arguments[index].as_str());
        proof {
            assert(argument@ == args[index as int]);
        }
        if starts_with_chars(argument.as_slice(), flag_eq.as_slice()) {
            let rest = sub_chars(argument.as_slice(), flag_eq.len(), argument.len());
            proof {
                assert(rest@ =~= args[index as int].skip(flag_eq_chars().len() as int));
            }
            package_map_path = if rest.len() > 0 {
                Some(chars_to_string(rest.as_slice()))
            } else {
                None
            };
        } else if crate::path::chars_eq(&argument, &flag) {
            if index + 1 < arguments.len() {
                let next = str_chars(arguments[index + 1].as_str());
                proof {
                    assert(next@ == args[index + 1]);
                }
                package_map_path = if next.len() > 0 && next[0] != '-' {
                    Some(arguments[index + 1].clone())
                } else {
                    None
                };
            } else {
                return None;
            }
            index = index + 1;
        }
        index = index + 1;
    }
    package_map_path
}

} // verus!
