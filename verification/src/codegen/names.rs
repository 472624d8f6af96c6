//! Names of the emitted items: type names, field names, reserved words, enum variants.
use vstd::prelude::*;
use vstd::string::*;
use crate::chars::{char_is_alphanumeric, char_is_numeric, char_is_uppercase, char_lowercase, char_uppercase, lowercase_of, uppercase_of};
use crate::text::{chars_of, push_chars, str_eq, string_of};

verus! {

/// The characters that separate the segments of a descriptor's identifier.
pub open spec fn is_separator(c: char) -> bool {
    c == '_' || c == '-'
}

/// What follows the first character of a type name: each separator is dropped and the
/// character after it is replaced by its uppercase mapping; a separator at the very end
/// is dropped.
pub open spec fn spec_camel_tail(s: Seq<char>) -> Seq<char>
    decreases s.len(),
{
    if s.len() == 0 {
        Seq::empty()
    } else if is_separator(s[0]) {
        if s.len() >= 2 {
            char_uppercase(s[1]) + spec_camel_tail(s.skip(2))
        } else {
            Seq::empty()
        }
    } else {
        seq![s[0]] + spec_camel_tail(s.skip(1))
    }
}

/// The type name for an identifier: the uppercase mapping of its first character (a leading
/// separator is its own uppercase and so stays), then the rest with each segment capitalised.
pub open spec fn spec_camel_case(s: Seq<char>) -> Seq<char> {
    if s.len() == 0 {
        Seq::empty()
    } else {
        char_uppercase(s[0]) + spec_camel_tail(s.skip(1))
    }
}

/// Turns an identifier with dashes or underscores into a type name. Converting the
/// result again changes nothing, wherever the result is settled.
pub fn camel_case_name(name: &str) -> (r: String)
    ensures
        r@ == spec_camel_case(name@),
        camel_settled(r@) ==> spec_camel_case(r@) == r@,
{
    proof {
        if camel_settled(spec_camel_case(name@)) {
            lemma_camel_case_fixed(spec_camel_case(name@));
        }
    }
    let s = chars_of(name);
    let mut out = String::new();
    if s.len() == 0 {
        return out;
    }
    let first = uppercase_of(s[0]);
    out.append(first.as_str());
    let mut i: usize = 1;
    assert(out@ =~= char_uppercase(s@[0]));
    while i < s.len()
        invariant
            1 <= i <= s.len(),
            s@.len() > 0,
            out@ + spec_camel_tail(s@.skip(i as int)) == spec_camel_case(s@),
        decreases s.len() - i,
    {
        let c = s[i];
        let ghost rest = s@.skip(i as int);
        assert(rest[0] == c);
        if c == '_' || c == '-' {
            if i + 1 < s.len() {
                let up = uppercase_of(s[i + 1]);
                assert(rest[1] == s@[i + 1]);
                assert(rest.skip(2) =~= s@.skip(i + 2));
                assert(out@ + (char_uppercase(s@[i + 1]) + spec_camel_tail(s@.skip(i + 2)))
                    =~= (out@ + char_uppercase(s@[i + 1])) + spec_camel_tail(s@.skip(i + 2)));
                out.append(up.as_str());
                i = i + 2;
            } else {
                assert(out@ + Seq::<char>::empty() =~= out@);
                i = i + 1;
                assert(s@.skip(i as int) =~= Seq::<char>::empty());
            }
        } else {
            assert(rest.skip(1) =~= s@.skip(i + 1));
            assert(out@ + (seq![c] + spec_camel_tail(s@.skip(i + 1))) =~= out@.push(c)
                + spec_camel_tail(s@.skip(i + 1)));
            out.push(c);
            i = i + 1;
        }
    }
    assert(s@.skip(s@.len() as int) =~= Seq::<char>::empty());
    assert(out@ + Seq::<char>::empty() =~= out@);
    out
}

/// A dash counts as an underscore in a field name.
pub open spec fn dash_to_underscore(c: char) -> char {
    if c == '-' {
        '_'
    } else {
        c
    }
}

/// Whether a character is an uppercase letter. The underscore is none.
pub open spec fn opens_or_continues_run(c: char) -> bool {
    c != '_' && char_is_uppercase(c)
}

/// One step of building a field name: the text so far, and whether it ends inside a run of
/// uppercase letters. An uppercase letter is replaced by its lowercase mapping, after an
/// underscore where it opens a run that is not at the start and does not follow an underscore.
pub open spec fn snake_step(acc: (Seq<char>, bool), raw: char) -> (Seq<char>, bool) {
    let c = dash_to_underscore(raw);
    if opens_or_continues_run(c) {
        if acc.0.len() > 0 && !acc.1 && acc.0.last() != '_' {
            (acc.0.push('_') + char_lowercase(c), true)
        } else {
            (acc.0 + char_lowercase(c), true)
        }
    } else {
        (acc.0.push(c), false)
    }
}

/// All the steps of building a field name, from the first character to the last.
pub open spec fn spec_snake_fold(s: Seq<char>) -> (Seq<char>, bool)
    decreases s.len(),
{
    if s.len() == 0 {
        (Seq::empty(), false)
    } else {
        snake_step(spec_snake_fold(s.drop_last()), s.last())
    }
}

/// The field name for an identifier: lower case, an underscore before each run of uppercase
/// letters inside it, dashes as underscores.
pub open spec fn spec_snake_case(s: Seq<char>) -> Seq<char> {
    spec_snake_fold(s).0
}

/// Turns an identifier into a field name. Converting the result again changes nothing,
/// wherever the lowercase mappings of the identifier's uppercase letters are settled.
pub fn snake_case_name(name: &str) -> (r: String)
    ensures
        r@ == spec_snake_case(name@),
        lowercase_settled(name@) ==> spec_snake_case(r@) == r@,
        separators_apart(name@) ==> no_doubled_underscore(r@),
{
    proof {
        if lowercase_settled(name@) {
            lemma_snake_case_idempotent(name@);
        }
        if separators_apart(name@) {
            lemma_snake_case_has_no_doubled_underscore(name@);
        }
    }
    let s = chars_of(name);
    let mut out: Vec<char> = Vec::new();
    let mut in_run = false;
    let mut i: usize = 0;
    while i < s.len()
        invariant
            i <= s.len(),
            (out@, in_run) == spec_snake_fold(s@.take(i as int)),
        decreases s.len() - i,
    {
        proof {
            let next = s@.take(i + 1);
            assert(next.drop_last() =~= s@.take(i as int));
            assert(next.last() == s@[i as int]);
        }
        let c = if s[i] == '-' { '_' } else { s[i] };
        if c != '_' && c.is_uppercase() {
            if out.len() > 0 && !in_run && out[out.len() - 1] != '_' {
                out.push('_');
            }
            let low = lowercase_of(c);
            let mut more = chars_of(low.as_str());
            out.append(&mut more);
            in_run = true;
        } else {
            out.push(c);
            in_run = false;
        }
        i = i + 1;
    }
    assert(s@.take(s@.len() as int) =~= s@);
    string_of(&out)
}

/// The raw-identifier form of a reserved word of the target language, any other name unchanged.
pub open spec fn spec_escape_rust_reserved(name: Seq<char>) -> Seq<char> {
    if name == "type"@ {
        "r#type"@
    } else if name == "match"@ {
        "r#match"@
    } else if name == "move"@ {
        "r#move"@
    } else if name == "use"@ {
        "r#use"@
    } else if name == "loop"@ {
        "r#loop"@
    } else if name == "continue"@ {
        "r#continue"@
    } else if name == "break"@ {
        "r#break"@
    } else if name == "fn"@ {
        "r#fn"@
    } else if name == "struct"@ {
        "r#struct"@
    } else if name == "enum"@ {
        "r#enum"@
    } else if name == "trait"@ {
        "r#trait"@
    } else if name == "impl"@ {
        "r#impl"@
    } else if name == "pub"@ {
        "r#pub"@
    } else if name == "as"@ {
        "r#as"@
    } else if name == "const"@ {
        "r#const"@
    } else if name == "let"@ {
        "r#let"@
    } else {
        name
    }
}

/// Escapes a name that is a reserved word of the target language.
pub fn escape_rust_reserved(name: &str) -> (r: &str)
    ensures
        r@ == spec_escape_rust_reserved(name@),
{
    if str_eq(name, "type") {
        "r#type"
    } else if str_eq(name, "match") {
        "r#match"
    } else if str_eq(name, "move") {
        "r#move"
    } else if str_eq(name, "use") {
        "r#use"
    } else if str_eq(name, "loop") {
        "r#loop"
    } else if str_eq(name, "continue") {
        "r#continue"
    } else if str_eq(name, "break") {
        "r#break"
    } else if str_eq(name, "fn") {
        "r#fn"
    } else if str_eq(name, "struct") {
        "r#struct"
    } else if str_eq(name, "enum") {
        "r#enum"
    } else if str_eq(name, "trait") {
        "r#trait"
    } else if str_eq(name, "impl") {
        "r#impl"
    } else if str_eq(name, "pub") {
        "r#pub"
    } else if str_eq(name, "as") {
        "r#as"
    } else if str_eq(name, "const") {
        "r#const"
    } else if str_eq(name, "let") {
        "r#let"
    } else {
        name
    }
}

/// `s` with each space replaced by a dash.
pub open spec fn spec_spaces_to_dashes(s: Seq<char>) -> Seq<char> {
    s.map_values(|c: char| if c == ' ' { '-' } else { c })
}

/// Whether a character may stand in an identifier of the target language.
pub open spec fn is_identifier_char(c: char) -> bool {
    char_is_alphanumeric(c) || c == '_'
}

/// The characters of `s` that may stand in an identifier, in their order.
pub open spec fn spec_identifier_chars(s: Seq<char>) -> Seq<char>
    decreases s.len(),
{
    if s.len() == 0 {
        Seq::empty()
    } else if is_identifier_char(s.last()) {
        spec_identifier_chars(s.drop_last()).push(s.last())
    } else {
        spec_identifier_chars(s.drop_last())
    }
}

/// The variant name of an option value before a leading digit is looked after: its type
/// name, spaces counting as separators, without the characters no identifier can hold.
pub open spec fn spec_enum_value_stem(option: Seq<char>) -> Seq<char> {
    spec_identifier_chars(spec_camel_case(spec_spaces_to_dashes(option)))
}

/// The variant name for an option value whose stem is not empty: the stem, after an
/// underscore where it begins with a numeric character.
pub open spec fn spec_enum_rust_value(option: Seq<char>) -> Seq<char> {
    let stem = spec_enum_value_stem(option);
    if char_is_numeric(stem[0]) {
        seq!['_'] + stem
    } else {
        stem
    }
}

/// The stem of the variant name for an option value.
pub fn enum_value_stem(option: &str) -> (r: Vec<char>)
    ensures
        r@ == spec_enum_value_stem(option@),
{
    let raw = chars_of(option);
    let mut dashed: Vec<char> = Vec::new();
    let mut i: usize = 0;
    while i < raw.len()
        invariant
            i <= raw.len(),
            dashed@ == spec_spaces_to_dashes(raw@.take(i as int)),
        decreases raw.len() - i,
    {
        let c = if raw[i] == ' ' { '-' } else { raw[i] };
        dashed.push(c);
        i = i + 1;
        assert(dashed@ =~= spec_spaces_to_dashes(raw@.take(i as int)));
    }
    assert(raw@.take(raw@.len() as int) =~= raw@);
    let dashed_text = string_of(&dashed);
    let camel = camel_case_name(dashed_text.as_str());
    let cs = chars_of(camel.as_str());
    let mut out: Vec<char> = Vec::new();
    let mut j: usize = 0;
    while j < cs.len()
        invariant
            j <= cs.len(),
            out@ == spec_identifier_chars(cs@.take(j as int)),
        decreases cs.len() - j,
    {
        proof {
            let next = cs@.take(j + 1);
            assert(next.drop_last() =~= cs@.take(j as int));
            assert(next.last() == cs@[j as int]);
        }
        let c = cs[j];
        if c.is_alphanumeric() || c == '_' {
            out.push(c);
        }
        j = j + 1;
    }
    assert(cs@.take(cs@.len() as int) =~= cs@);
    out
}

/// The variant name for an option value that leaves at least one character for it.
pub fn enum_rust_value(option: &str) -> (r: String)
    requires
        spec_enum_value_stem(option@).len() > 0,
    ensures
        r@ == spec_enum_rust_value(option@),
{
    let stem = enum_value_stem(option);
    finish_enum_value(&stem)
}

/// The variant name for an option value, or `None` where no character is left for it.
pub fn checked_enum_rust_value(option: &str) -> (r: Option<String>)
    ensures
        match r {
            Some(v) => spec_enum_value_stem(option@).len() > 0 && v@ == spec_enum_rust_value(
                option@,
            ),
            None => spec_enum_value_stem(option@).len() == 0,
        },
{
    let stem = enum_value_stem(option);
    if stem.len() == 0 {
        None
    } else {
        Some(finish_enum_value(&stem))
    }
}

fn finish_enum_value(stem: &Vec<char>) -> (r: String)
    requires
        stem@.len() > 0,
    ensures
        r@ == (if char_is_numeric(stem@[0]) {
            seq!['_'] + stem@
        } else {
            stem@
        }),
{
    if stem[0].is_numeric() {
        let mut out = String::new();
        out.push('_');
        push_chars(&mut out, stem);
        assert(Seq::<char>::empty().push('_') =~= seq!['_']);
        out
    } else {
        string_of(stem)
    }
}


/// A type name that conversion leaves as it is: its first character is its own uppercase
/// mapping, and no separator follows the first character.
pub open spec fn camel_settled(y: Seq<char>) -> bool {
    y.len() > 0 ==> {
        &&& char_uppercase(y[0]) == seq![y[0]]
        &&& forall|i: int| 1 <= i < y.len() ==> !is_separator(#[trigger] y[i])
    }
}

proof fn lemma_camel_tail_without_separators(t: Seq<char>)
    requires
        forall|i: int| 0 <= i < t.len() ==> !is_separator(#[trigger] t[i]),
    ensures
        spec_camel_tail(t) == t,
    decreases t.len(),
{
    if t.len() > 0 {
        assert(!is_separator(t[0]));
        assert forall|i: int| 0 <= i < t.skip(1).len() implies !is_separator(
            #[trigger] t.skip(1)[i],
        ) by {
            assert(t.skip(1)[i] == t[i + 1]);
        }
        lemma_camel_tail_without_separators(t.skip(1));
        assert(seq![t[0]] + t.skip(1) =~= t);
    }
}

/// Conversion to a type name leaves a settled name unchanged.
pub proof fn lemma_camel_case_fixed(y: Seq<char>)
    requires
        camel_settled(y),
    ensures
        spec_camel_case(y) == y,
{
    if y.len() > 0 {
        assert forall|i: int| 0 <= i < y.skip(1).len() implies !is_separator(
            #[trigger] y.skip(1)[i],
        ) by {
            assert(y.skip(1)[i] == y[i + 1]);
        }
        lemma_camel_tail_without_separators(y.skip(1));
        assert(seq![y[0]] + y.skip(1) =~= y);
    }
}

/// Converting to a type name twice gives what converting once gives, wherever the first
/// conversion gave a settled name.
pub proof fn lemma_camel_case_idempotent(x: Seq<char>)
    requires
        camel_settled(spec_camel_case(x)),
    ensures
        spec_camel_case(spec_camel_case(x)) == spec_camel_case(x),
{
    lemma_camel_case_fixed(spec_camel_case(x));
}

/// A character that conversion to a field name copies: no dash and no uppercase letter.
pub open spec fn is_field_char(c: char) -> bool {
    c != '-' && !opens_or_continues_run(c)
}

/// Every uppercase letter of `s` has a lowercase mapping made of characters that a field
/// name keeps.
pub open spec fn lowercase_settled(s: Seq<char>) -> bool {
    forall|i: int, j: int|
        0 <= i < s.len() && opens_or_continues_run(s[i]) && 0 <= j < char_lowercase(s[i]).len()
            ==> is_field_char(#[trigger] char_lowercase(s[i])[j])
}

/// A field name holds no dash and no uppercase letter, wherever the lowercase mappings
/// of the identifier's uppercase letters hold none.
pub proof fn lemma_snake_output_is_plain(x: Seq<char>)
    requires
        lowercase_settled(x),
    ensures
        forall|k: int|
            0 <= k < spec_snake_case(x).len() ==> is_field_char(#[trigger] spec_snake_case(x)[k]),
    decreases x.len(),
{
    if x.len() > 0 {
        let before = x.drop_last();
        assert forall|i: int, j: int|
            0 <= i < before.len() && opens_or_continues_run(before[i]) && 0 <= j
                < char_lowercase(before[i]).len() implies is_field_char(
            #[trigger] char_lowercase(before[i])[j],
        ) by {
            assert(before[i] == x[i]);
        }
        lemma_snake_output_is_plain(before);
        let acc = spec_snake_fold(before);
        let c = dash_to_underscore(x.last());
        let out = spec_snake_case(x);
        assert(x.last() == x[x.len() - 1]);
        assert forall|k: int| 0 <= k < out.len() implies is_field_char(#[trigger] out[k]) by {
            if opens_or_continues_run(c) {
                assert(c == x[x.len() - 1]);
                let low = char_lowercase(c);
                if acc.0.len() > 0 && !acc.1 && acc.0.last() != '_' {
                    if k < acc.0.len() {
                        assert(is_field_char(spec_snake_case(before)[k]));
                        assert(out[k] == acc.0[k]);
                    } else if k == acc.0.len() {
                        assert(out[k] == '_');
                    } else {
                        let j = k - acc.0.len() - 1;
                        assert(out == acc.0.push('_') + low);
                        assert(out[k] == low[j]);
                        assert(is_field_char(char_lowercase(x[x.len() - 1])[j]));
                    }
                } else {
                    if k < acc.0.len() {
                        assert(is_field_char(spec_snake_case(before)[k]));
                        assert(out[k] == acc.0[k]);
                    } else {
                        let j = k - acc.0.len();
                        assert(out == acc.0 + low);
                        assert(out[k] == low[j]);
                        assert(is_field_char(char_lowercase(x[x.len() - 1])[j]));
                    }
                }
            } else {
                if k < acc.0.len() {
                    assert(is_field_char(spec_snake_case(before)[k]));
                        assert(out[k] == acc.0[k]);
                } else {
                    assert(out[k] == c);
                }
            }
        }
    }
}

proof fn lemma_snake_fold_of_plain(y: Seq<char>)
    requires
        forall|k: int| 0 <= k < y.len() ==> is_field_char(#[trigger] y[k]),
    ensures
        spec_snake_fold(y) == (y, false),
    decreases y.len(),
{
    if y.len() > 0 {
        let before = y.drop_last();
        assert forall|k: int| 0 <= k < before.len() implies is_field_char(
            #[trigger] before[k],
        ) by {
            assert(before[k] == y[k]);
        }
        lemma_snake_fold_of_plain(before);
        assert(is_field_char(y[y.len() - 1]));
        assert(before.push(y.last()) =~= y);
    }
}

/// Conversion to a field name leaves unchanged a name without dashes and uppercase letters.
pub proof fn lemma_snake_case_fixed(y: Seq<char>)
    requires
        forall|k: int| 0 <= k < y.len() ==> is_field_char(#[trigger] y[k]),
    ensures
        spec_snake_case(y) == y,
{
    lemma_snake_fold_of_plain(y);
}

/// Converting to a field name twice gives what converting once gives, for every
/// identifier whose uppercase letters have lowercase mappings that a field name keeps.
pub proof fn lemma_snake_case_idempotent(x: Seq<char>)
    requires
        lowercase_settled(x),
    ensures
        spec_snake_case(spec_snake_case(x)) == spec_snake_case(x),
{
    lemma_snake_output_is_plain(x);
    lemma_snake_case_fixed(spec_snake_case(x));
}


/// Whether every uppercase letter of a name has a lowercase mapping made of characters
/// that a field name keeps: the premise under which a second conversion changes nothing.
pub fn is_lowercase_settled(name: &str) -> (r: bool)
    ensures
        r == lowercase_settled(name@),
{
    let s = chars_of(name);
    let mut i: usize = 0;
    while i < s.len()
        invariant
            i <= s.len(),
            s@ == name@,
            forall|a: int, j: int|
                0 <= a < i && opens_or_continues_run(s@[a]) && 0 <= j < char_lowercase(s@[a]).len()
                    ==> is_field_char(#[trigger] char_lowercase(s@[a])[j]),
        decreases s.len() - i,
    {
        let c = s[i];
        if c != '_' && c.is_uppercase() {
            let low = lowercase_of(c);
            let lc = chars_of(low.as_str());
            let mut j: usize = 0;
            while j < lc.len()
                invariant
                    j <= lc.len(),
                    i < s.len(),
                    s@ == name@,
                    c == s@[i as int],
                    opens_or_continues_run(c),
                    lc@ == char_lowercase(c),
                    forall|b: int| 0 <= b < j ==> is_field_char(#[trigger] lc@[b]),
                decreases lc.len() - j,
            {
                let d = lc[j];
                if d == '-' || (d != '_' && d.is_uppercase()) {
                    assert(!is_field_char(char_lowercase(name@[i as int])[j as int]));
                    return false;
                }
                j = j + 1;
            }
            assert forall|b: int| 0 <= b < char_lowercase(s@[i as int]).len() implies is_field_char(
                #[trigger] char_lowercase(s@[i as int])[b],
            ) by {
                assert(is_field_char(lc@[b]));
            }
        }
        i = i + 1;
    }
    true
}

/// No two separators of the identifier are neighbours, and the lowercase mapping of each
/// of its uppercase letters is not empty and holds no underscore.
pub open spec fn separators_apart(s: Seq<char>) -> bool {
    &&& forall|i: int| 0 <= i && i + 1 < s.len() ==> !(is_separator(#[trigger] s[i]) && is_separator(
        s[i + 1],
    ))
    &&& forall|i: int|
        0 <= i < s.len() && opens_or_continues_run(#[trigger] s[i]) ==> char_lowercase(s[i]).len()
            > 0
    &&& forall|i: int, j: int|
        0 <= i < s.len() && opens_or_continues_run(s[i]) && 0 <= j < char_lowercase(s[i]).len()
            ==> #[trigger] char_lowercase(s[i])[j] != '_'
}

/// No underscore follows an underscore.
pub open spec fn no_doubled_underscore(out: Seq<char>) -> bool {
    forall|k: int| 0 <= k && k + 1 < out.len() ==> !(#[trigger] out[k] == '_' && out[k + 1] == '_')
}

proof fn lemma_snake_fold_keeps_separators_apart(x: Seq<char>)
    requires
        separators_apart(x),
    ensures
        no_doubled_underscore(spec_snake_fold(x).0),
        x.len() > 0 ==> spec_snake_fold(x).0.len() > 0 && (spec_snake_fold(x).0.last() == '_'
            <==> is_separator(x.last())),
    decreases x.len(),
{
    if x.len() > 0 {
        let before = x.drop_last();
        assert forall|i: int| 0 <= i && i + 1 < before.len() implies !(is_separator(
            #[trigger] before[i],
        ) && is_separator(before[i + 1])) by {
            assert(before[i] == x[i] && before[i + 1] == x[i + 1]);
        }
        assert forall|i: int|
            0 <= i < before.len() && opens_or_continues_run(#[trigger] before[i]) implies char_lowercase(
            before[i],
        ).len() > 0 by {
            assert(before[i] == x[i]);
        }
        assert forall|i: int, j: int|
            0 <= i < before.len() && opens_or_continues_run(before[i]) && 0 <= j < char_lowercase(
                before[i],
            ).len() implies #[trigger] char_lowercase(before[i])[j] != '_' by {
            assert(before[i] == x[i]);
        }
        lemma_snake_fold_keeps_separators_apart(before);
        let acc = spec_snake_fold(before);
        let raw = x[x.len() - 1];
        assert(x.last() == raw);
        let c = dash_to_underscore(raw);
        let out = spec_snake_fold(x).0;
        if before.len() > 0 {
            assert(before.last() == x[x.len() - 2]);
            assert(!(is_separator(x[x.len() - 2]) && is_separator(x[x.len() - 2 + 1])));
        }
        if opens_or_continues_run(c) {
            let low = char_lowercase(c);
            assert(c == raw);
            assert(low.len() > 0);
            assert(forall|j: int| 0 <= j < low.len() ==> low[j] != '_') by {
                assert forall|j: int| 0 <= j < low.len() implies low[j] != '_' by {
                    assert(char_lowercase(x[x.len() - 1])[j] != '_');
                }
            }
            let mid = if acc.0.len() > 0 && !acc.1 && acc.0.last() != '_' {
                acc.0.push('_')
            } else {
                acc.0
            };
            assert(out == mid + low);
            assert(no_doubled_underscore(mid));
            assert forall|k: int| 0 <= k && k + 1 < out.len() implies !(#[trigger] out[k] == '_'
                && out[k + 1] == '_') by {
                if k + 1 < mid.len() {
                    assert(out[k] == mid[k] && out[k + 1] == mid[k + 1]);
                } else {
                    assert(out[k + 1] == low[k + 1 - mid.len()]);
                }
            }
            assert(out.last() == low[low.len() - 1]);
        } else {
            assert(out == acc.0.push(c));
            assert forall|k: int| 0 <= k && k + 1 < out.len() implies !(#[trigger] out[k] == '_'
                && out[k + 1] == '_') by {
                if k + 1 < acc.0.len() {
                    assert(out[k] == acc.0[k] && out[k + 1] == acc.0[k + 1]);
                } else {
                    assert(out[k] == acc.0.last());
                    assert(out[k + 1] == c);
                }
            }
        }
    }
}

/// Conversion to a field name never doubles an underscore: where no two separators of
/// the identifier are neighbours, and no lowercase mapping brings an underscore or
/// nothing at all, no underscore of the field name follows another.
pub proof fn lemma_snake_case_has_no_doubled_underscore(x: Seq<char>)
    requires
        separators_apart(x),
    ensures
        no_doubled_underscore(spec_snake_case(x)),
{
    lemma_snake_fold_keeps_separators_apart(x);
}

} // verus!
