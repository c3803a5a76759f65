//! The one-line summary of an argument's flags and value placeholders.

use vstd::prelude::*;
use vstd::string::StringExecFns;
use crate::node::{ArgumentNode, ArgumentSpec};
use crate::text::{join, join_texts, lemma_join_push, pad_to, to_upper, upper, views};

verus! {

/// The short flag with its dash, or nothing.
pub open spec fn short_form(a: ArgumentSpec) -> Seq<char> {
    match a.short {
        Some(c) => seq!['-', c],
        None => Seq::empty(),
    }
}

/// The long flag with its two dashes, or nothing.
pub open spec fn long_form(a: ArgumentSpec) -> Seq<char> {
    match a.long {
        Some(name) => "--"@ + name,
        None => Seq::empty(),
    }
}

/// A value name in angle brackets where the value must be given, in square
/// brackets where it may be left out.
pub open spec fn bracketed(name: Seq<char>, required: bool) -> Seq<char> {
    if required {
        "<"@ + name + ">"@
    } else {
        "["@ + name + "]"@
    }
}

/// The placeholders of the values an argument takes: its declared value
/// names as they are written, or else its identifier with the ASCII letters
/// `a` to `z` in upper case. A letter outside ASCII is kept as it is, so the
/// identifier `größe` gives `GRößE`.
pub open spec fn placeholders(a: ArgumentSpec) -> Seq<Seq<char>> {
    if !a.takes_values {
        Seq::empty()
    } else {
        match a.value_names {
            Some(names) => Seq::new(names.len(), |i: int| bracketed(names[i], a.required)),
            None => seq![bracketed(upper(a.id), a.required)],
        }
    }
}

/// Whether one occurrence of the argument accepts more than one value.
pub open spec fn repeats(a: ArgumentSpec) -> bool {
    match a.max_values {
        Some(n) => n > 1,
        None => false,
    }
}

/// The placeholders, followed by an ellipsis where the argument repeats.
pub open spec fn value_tokens(a: ArgumentSpec) -> Seq<Seq<char>> {
    if repeats(a) {
        placeholders(a).push("..."@)
    } else {
        placeholders(a)
    }
}

/// The flags of an argument: the short flag in a column of two characters,
/// the long flag behind a comma or behind two more spaces, then the value
/// tokens behind one space.
pub open spec fn flags_text(a: ArgumentSpec) -> Seq<char> {
    pad_to(short_form(a), 2) + (if a.long is Some {
        (if a.short is Some {
            ", "@
        } else {
            "  "@
        }) + long_form(a)
    } else {
        Seq::empty()
    }) + (if value_tokens(a).len() > 0 {
        " "@ + join(value_tokens(a), " "@)
    } else {
        Seq::empty()
    })
}

/// The name that stands in the only placeholder of an argument with one
/// value: the declared value name, or else the identifier with its ASCII
/// letters in upper case.
pub open spec fn value_label(a: ArgumentSpec) -> Seq<char> {
    match a.value_names {
        Some(names) => names[0],
        None => upper(a.id),
    }
}

/// Whether an argument shows exactly one value placeholder and no ellipsis.
pub open spec fn single_valued(a: ArgumentSpec) -> bool {
    &&& a.takes_values
    &&& !repeats(a)
    &&& a.value_names matches Some(names) ==> names.len() == 1
}

/// A required argument with a short and a long flag and a single value shows
/// both flags, joined by a comma, and then its value name in angle
/// brackets, which is its only placeholder.
pub proof fn lemma_required_option(a: ArgumentSpec, short: char, long: Seq<char>)
    requires
        a.short == Some(short),
        a.long == Some(long),
        a.required,
        single_valued(a),
    ensures
        value_tokens(a) == seq!["<"@ + value_label(a) + ">"@],
        flags_text(a) == seq!['-', short] + ", "@ + ("--"@ + long) + " "@ + ("<"@ + value_label(a)
            + ">"@),
{
    assert(value_tokens(a) =~= seq!["<"@ + value_label(a) + ">"@]);
}

/// Such an argument shows no square bracket, as long as neither its flags nor
/// its value name hold one.
pub proof fn lemma_required_option_has_no_square_bracket(
    a: ArgumentSpec,
    short: char,
    long: Seq<char>,
)
    requires
        a.short == Some(short),
        a.long == Some(long),
        a.required,
        single_valued(a),
        short != '[' && short != ']',
        !long.contains('[') && !long.contains(']'),
        !value_label(a).contains('[') && !value_label(a).contains(']'),
    ensures
        !flags_text(a).contains('['),
        !flags_text(a).contains(']'),
{
    lemma_required_option(a, short, long);
    reveal_strlit(", ");
    reveal_strlit("--");
    reveal_strlit(" ");
    reveal_strlit("<");
    reveal_strlit(">");
    let head = seq!['-', short] + ", "@ + ("--"@ + long) + " "@ + "<"@;
    let label = value_label(a);
    let text = flags_text(a);
    assert(text =~= head + label + ">"@);
    assert(head.len() == 8 + long.len());
    assert forall|i: int| 0 <= i < text.len() implies text[i] != '[' && text[i] != ']' by {
        if i < 6 {
        } else if i < 6 + long.len() {
            assert(text[i] == long[i - 6]);
        } else if i < head.len() {
        } else if i < head.len() + label.len() {
            assert(text[i] == label[i - head.len()]);
        } else {
        }
    }
}

/// An optional argument with a long flag only and a single value shows two
/// spaces where the short flag would stand, two more in place of the comma,
/// the long flag, and its value name in square brackets.
pub proof fn lemma_optional_long_option(a: ArgumentSpec, long: Seq<char>)
    requires
        a.short is None,
        a.long == Some(long),
        !a.required,
        single_valued(a),
    ensures
        value_tokens(a) == seq!["["@ + value_label(a) + "]"@],
        flags_text(a) == "  "@ + "  "@ + ("--"@ + long) + " "@ + ("["@ + value_label(a) + "]"@),
        "  "@.is_prefix_of(flags_text(a)),
{
    reveal_strlit("  ");
    assert(value_tokens(a) =~= seq!["["@ + value_label(a) + "]"@]);
    assert(pad_to(short_form(a), 2) =~= "  "@);
    let text = "  "@ + "  "@ + ("--"@ + long) + " "@ + ("["@ + value_label(a) + "]"@);
    assert(flags_text(a) =~= text);
    assert("  "@ =~= text.subrange(0, 2));
}

/// The same argument with no upper bound declared on its values.
pub open spec fn without_bound(a: ArgumentSpec) -> ArgumentSpec {
    ArgumentSpec { max_values: None, ..a }
}

/// An argument that accepts more than one value shows what it would show
/// otherwise, followed by a space and an ellipsis: its text ends with the
/// ellipsis.
pub proof fn lemma_repeating_ends_with_ellipsis(a: ArgumentSpec)
    requires
        repeats(a),
    ensures
        value_tokens(a).last() == "..."@,
        flags_text(a) == flags_text(without_bound(a)) + " ..."@,
        "..."@.is_suffix_of(flags_text(a)),
{
    reveal_strlit("...");
    reveal_strlit(" ...");
    reveal_strlit(" ");
    let b = without_bound(a);
    let p = placeholders(a);
    assert(placeholders(b) =~= p);
    assert(value_tokens(b) =~= p);
    lemma_join_push(p, " "@, "..."@);
    let text = flags_text(a);
    assert(text =~= flags_text(b) + " ..."@);
    assert("..."@ =~= text.subrange(text.len() - 3, text.len() as int));
}

fn bracket(name: &str, required: bool) -> (r: String)
    ensures
        r@ == bracketed(name@, required),
{
    let mut out = String::new();
    if required {
        out.append("<");
        out.append(name);
        out.append(">");
    } else {
        out.append("[");
        out.append(name);
        out.append("]");
    }
    proof {
        assert(Seq::<char>::empty() + "<"@ =~= "<"@);
        assert(Seq::<char>::empty() + "["@ =~= "["@);
    }
    out
}

fn value_parts(arg: &ArgumentNode) -> (r: Vec<String>)
    ensures
        views(r@) == value_tokens(arg@),
{
    let mut values: Vec<String> = Vec::new();
    if arg.takes_values {
        match &arg.value_names {
            Some(names) => {
                let mut i: usize = 0;
                while i < names.len()
                    invariant
                        i <= names.len(),
                        values.len() == i,
                        forall|j: int|
                            0 <= j < i ==> (#[trigger] values[j])@ == bracketed(
                                names[j]@,
                                arg.required,
                            ),
                    decreases names.len() - i,
                {
                    values.push(bracket(names[i].as_str(), arg.required));
                    i = i + 1;
                }
            },
            None => {
                let id = to_upper(arg.id.as_str());
                values.push(bracket(id.as_str(), arg.required));
            },
        }
    }
    proof {
        assert(views(values@) =~= placeholders(arg@));
    }
    let many = match arg.max_values {
        Some(n) => n > 1,
        None => false,
    };
    if many {
        let ghost before = values@;
        values.push("...".to_owned());
        proof {
            assert(views(values@) =~= views(before).push("..."@));
        }
    }
    values
}

/// Formats the flags of `arg` as one line, such as `-f, --flag <VALUE>`.
///
/// An argument that takes values and declares no value name shows its
/// identifier in their place, with the ASCII letters `a` to `z` in upper
/// case; letters outside ASCII are not changed.
pub fn fmt_flags(arg: &ArgumentNode) -> (r: String)
    requires
        arg@.well_formed(),
    ensures
        r@ == flags_text(arg@),
{
    let values = value_parts(arg);
    let mut s = String::new();
    match arg.short {
        Some(c) => {
            s.push('-');
            s.push(c);
        },
        None => {
            s.append("  ");
        },
    }
    proof {
        reveal_strlit("  ");
        assert(s@ =~= pad_to(short_form(arg@), 2));
    }
    match &arg.long {
        Some(name) => {
            if arg.short.is_some() {
                s.append(", ");
            } else {
                s.append("  ");
            }
            s.append("--");
            s.append(name.as_str());
        },
        None => {},
    }
    if values.len() > 0 {
        s.append(" ");
        let joined = join_texts(&values, " ");
        s.append(joined.as_str());
    }
    proof {
        assert(s@ =~= flags_text(arg@));
    }
    s
}

} // verus!
