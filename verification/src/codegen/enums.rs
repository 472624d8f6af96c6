//! The enums that are emitted for sets of options.
use vstd::prelude::*;
use vstd::string::*;
use crate::ast::Param;
use crate::codegen::config::{lines_result, CompileError, CompileErrorKind, Fault};
use crate::codegen::method::after;
use crate::codegen::names::{
    camel_case_name, checked_enum_rust_value, spec_camel_case, spec_enum_rust_value,
    spec_enum_value_stem,
};
use crate::codegen::option_names::OptionNames;
use crate::options::Options;
use crate::text::{cat3, cat7, extend_lines, no_lines, push_line, push_str_line, texts};

verus! {

/// The length of the longest name of a list.
pub open spec fn spec_max_len(names: Seq<Seq<char>>) -> nat
    decreases names.len(),
{
    if names.len() == 0 {
        0
    } else if names.last().len() > spec_max_len(names.drop_last()) {
        names.last().len()
    } else {
        spec_max_len(names.drop_last())
    }
}

/// No name of a list is longer than the longest.
pub proof fn lemma_max_len(names: Seq<Seq<char>>, name: Seq<char>)
    requires
        names.contains(name),
    ensures
        name.len() <= spec_max_len(names),
    decreases names.len(),
{
    if names.len() > 0 {
        if names.last() != name {
            let i = choose|i: int| 0 <= i < names.len() && names[i] == name;
            assert(names.drop_last()[i] == name);
            lemma_max_len(names.drop_last(), name);
        }
    }
}

/// A name that is not in use: the candidate, followed by as many underscores as it takes.
pub open spec fn spec_free_name(candidate: Seq<char>, taken: Seq<Seq<char>>) -> Seq<char>
    decreases spec_max_len(taken) + 1 - candidate.len(),
{
    if taken.contains(candidate) {
        proof {
            lemma_max_len(taken, candidate);
        }
        spec_free_name(candidate.push('_'), taken)
    } else {
        candidate
    }
}

/// The name that is found is not in use.
pub proof fn lemma_free_name_is_free(candidate: Seq<char>, taken: Seq<Seq<char>>)
    ensures
        !taken.contains(spec_free_name(candidate, taken)),
    decreases spec_max_len(taken) + 1 - candidate.len(),
{
    if taken.contains(candidate) {
        lemma_max_len(taken, candidate);
        lemma_free_name_is_free(candidate.push('_'), taken);
    }
}

/// The name of the enum for the options of a parameter, where the customization gives
/// none: the type name of the parameter's name, followed by underscores where that is in
/// use for other options.
pub open spec fn spec_options_rust_enum_name(param: Param, taken: Seq<Seq<char>>) -> Seq<char> {
    spec_free_name(spec_camel_case(param.name@), taken)
}

/// The name of the enum for the options of a parameter.
pub fn options_rust_enum_name(param: &Param, names: &OptionNames) -> (r: String)
    ensures
        r@ == spec_options_rust_enum_name(*param, names.spec_names()),
        !names.spec_names().contains(r@),
{
    let mut name = camel_case_name(param.name.as_str());
    let ghost taken = names.spec_names();
    proof {
        lemma_free_name_is_free(spec_camel_case(param.name@), taken);
    }
    while names.is_taken(name.as_str())
        invariant
            taken == names.spec_names(),
            spec_free_name(name@, taken) == spec_options_rust_enum_name(*param, taken),
        decreases spec_max_len(taken) + 1 - name@.len(),
    {
        proof {
            lemma_max_len(taken, name@);
        }
        name.push('_');
    }
    name
}

/// What is emitted for each value of an enum.
#[derive(Debug, Clone, Copy, PartialEq, Eq, Structural)]
pub enum VariantEmit {
    /// The variant with the attribute that names the value.
    Member,
    /// The arm that writes the value.
    Arm,
}

/// The failure for a value that leaves no character for the name of its variant.
pub open spec fn invalid_value_fault(enum_name: Seq<char>, value: Seq<char>) -> Fault {
    Fault { kind: CompileErrorKind::InvalidOptionValue, item: enum_name, param: ""@, detail: value }
}

/// The lines for one value of an enum.
pub open spec fn spec_variant(which: VariantEmit, enum_name: Seq<char>, value: Seq<char>) -> Result<
    Seq<Seq<char>>,
    Fault,
> {
    if spec_enum_value_stem(value).len() == 0 {
        Err(invalid_value_fault(enum_name, value))
    } else {
        let variant = spec_enum_rust_value(value);
        match which {
            VariantEmit::Member => Ok(
                Seq::<Seq<char>>::empty().push("    #[serde(rename = \""@ + value + "\")]\n"@).push(
                    "    "@ + variant + ",\n"@,
                ),
            ),
            VariantEmit::Arm => Ok(
                Seq::<Seq<char>>::empty().push(
                    "            "@ + enum_name + "::"@ + variant + " => write!(f, \""@ + value
                        + "\"),\n"@,
                ),
            ),
        }
    }
}

/// The lines for the values of an enum, in their order.
pub open spec fn spec_variants(which: VariantEmit, enum_name: Seq<char>, values: Seq<Seq<char>>) -> Result<
    Seq<Seq<char>>,
    Fault,
>
    decreases values.len(),
{
    if values.len() == 0 {
        Ok(Seq::empty())
    } else {
        match spec_variant(which, enum_name, values[0]) {
            Err(e) => Err(e),
            Ok(first) => after(first, spec_variants(which, enum_name, values.skip(1))),
        }
    }
}

fn variant(which: VariantEmit, enum_name: &str, value: &str) -> (r: Result<Vec<String>, CompileError>)
    ensures
        lines_result(r) == spec_variant(which, enum_name@, value@),
{
    let name = match checked_enum_rust_value(value) {
        Some(n) => n,
        None => {
            return Err(
                CompileError::new(CompileErrorKind::InvalidOptionValue, enum_name, "", value),
            );
        },
    };
    let mut lines: Vec<String> = no_lines();
    match which {
        VariantEmit::Member => {
            push_line(&mut lines, cat3("    #[serde(rename = \"", value, "\")]\n"));
            push_line(&mut lines, cat3("    ", name.as_str(), ",\n"));
        },
        VariantEmit::Arm => {
            push_line(
                &mut lines,
                cat7(
                    "            ",
                    enum_name,
                    "::",
                    name.as_str(),
                    " => write!(f, \"",
                    value,
                    "\"),\n",
                ),
            );
        },
    }
    Ok(lines)
}

/// The characters of each string slice of a list.
pub open spec fn slices(v: Seq<&str>) -> Seq<Seq<char>> {
    v.map_values(|s: &str| s@)
}

fn variants(lines: &mut Vec<String>, which: VariantEmit, enum_name: &str, values: &Vec<&str>) -> (r:
    Result<(), CompileError>)
    ensures
        match r {
            Ok(_) => Ok(texts(final(lines)@)),
            Err(e) => Err(e@),
        } == after(texts(old(lines)@), spec_variants(which, enum_name@, slices(values@))),
{
    let ghost start = texts(lines@);
    let ghost all = slices(values@);
    let mut i: usize = 0;
    assert(all.skip(0) =~= all);
    assert(start + Seq::<Seq<char>>::empty() =~= start);
    let ghost mut done = Seq::<Seq<char>>::empty();
    while i < values.len()
        invariant
            i <= values.len(),
            all == slices(values@),
            texts(lines@) == start + done,
            spec_variants(which, enum_name@, all) == after(
                done,
                spec_variants(which, enum_name@, all.skip(i as int)),
            ),
        decreases values.len() - i,
    {
        let ghost rest = all.skip(i as int);
        assert(rest[0] == values@[i as int]@);
        assert(rest.skip(1) =~= all.skip(i + 1));
        match variant(which, enum_name, values[i]) {
            Ok(more) => {
                proof {
                    let tail = spec_variants(which, enum_name@, rest.skip(1));
                    if let Ok(t) = tail {
                        assert(done + (texts(more@) + t) =~= (done + texts(more@)) + t);
                    }
                    assert((start + done) + texts(more@) =~= start + (done + texts(more@)));
                    done = done + texts(more@);
                }
                extend_lines(lines, more);
            },
            Err(e) => {
                return Err(e);
            },
        }
        i = i + 1;
    }
    assert(done + Seq::<Seq<char>>::empty() =~= done);
    Ok(())
}

/// The enum for a set of options: one variant for each value, in the order of the set,
/// named after the value and bound to it for reading and writing, and the conversion of
/// a variant to the text of its value. A value that leaves no character for the name of
/// its variant is a failure.
#[verifier::opaque]
pub open spec fn spec_generate_options(name: Seq<char>, values: Seq<Seq<char>>) -> Result<
    Seq<Seq<char>>,
    Fault,
> {
    match after(
        Seq::<Seq<char>>::empty().push(
            "#[derive(Debug, Clone, Copy, PartialEq, Eq, std::hash::Hash, serde::Serialize, serde::Deserialize)]\n"@,
        ).push("pub enum "@ + name + " {\n"@),
        spec_variants(VariantEmit::Member, name, values),
    ) {
        Err(e) => Err(e),
        Ok(members) => match after(
            members.push("}\n"@).push("\n"@).push("impl std::fmt::Display for "@ + name + " {\n"@).push(
                "    fn fmt(&self, f: &mut std::fmt::Formatter<'_>) -> std::fmt::Result {\n"@,
            ).push("        match self {\n"@),
            spec_variants(VariantEmit::Arm, name, values),
        ) {
            Err(e) => Err(e),
            Ok(arms) => Ok(arms.push("        }\n"@).push("    }\n"@).push("}\n"@)),
        },
    }
}

/// Emits the enum for a set of options.
pub fn generate_options(name: &str, options: &Options) -> (r: Result<Vec<String>, CompileError>)
    ensures
        lines_result(r) == spec_generate_options(name@, options.spec_keys()),
{
    reveal(spec_generate_options);
    let values = options.keys();
    let mut lines: Vec<String> = no_lines();
    push_str_line(
        &mut lines,
        "#[derive(Debug, Clone, Copy, PartialEq, Eq, std::hash::Hash, serde::Serialize, serde::Deserialize)]\n",
    );
    push_line(&mut lines, cat3("pub enum ", name, " {\n"));
    match variants(&mut lines, VariantEmit::Member, name, &values) {
        Ok(_) => {},
        Err(e) => {
            return Err(e);
        },
    }
    push_str_line(&mut lines, "}\n");
    push_str_line(&mut lines, "\n");
    push_line(&mut lines, cat3("impl std::fmt::Display for ", name, " {\n"));
    push_str_line(
        &mut lines,
        "    fn fmt(&self, f: &mut std::fmt::Formatter<'_>) -> std::fmt::Result {\n",
    );
    push_str_line(&mut lines, "        match self {\n");
    match variants(&mut lines, VariantEmit::Arm, name, &values) {
        Ok(_) => {},
        Err(e) => {
            return Err(e);
        },
    }
    push_str_line(&mut lines, "        }\n");
    push_str_line(&mut lines, "    }\n");
    push_str_line(&mut lines, "}\n");
    Ok(lines)
}

} // verus!
