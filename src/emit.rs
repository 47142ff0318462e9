use vstd::prelude::*;
use vstd::utf8::encode_utf8;
use crate::registry::{lemma_contents_fix_order, ConstType, ConstVal, Registry, RegistryMap};
use crate::text::{
    byte_list, parse_bool, parse_bool_spec, push_byte_list, push_text, push_upper, upper,
};
use crate::version::{
    clap_version_def, version_def, version_defs, VersionKind, BUILD_CONST_CLAP_LONG_VERSION,
    BUILD_CONST_VERSION,
};

verus! {

/// Identifier of the collected package metadata; its presence adds the metadata function.
pub const CARGO_METADATA: &'static str = "CARGO_METADATA";

pub const HEADER_OPEN: &'static str = "// Code automatically generated by `shadow-rs` (https://github.com/baoyachi/shadow-rs), do not edit.\n// Author: https://www.github.com/baoyachi\n// Generation time: ";

pub const HEADER_CLOSE: &'static str = "\n\n\n\n";

pub const DOC_OPEN: &'static str = "#[doc=r#\"";

pub const DOC_CLOSE: &'static str = "\"#]\n";

pub const DEF_OPEN: &'static str = "#[allow(dead_code)]\n#[allow(clippy::all, clippy::pedantic, clippy::restriction, clippy::nursery)]\npub const ";

pub const STR_TYPE: &'static str = " :&str = r#\"";

pub const STR_END: &'static str = "\"#;\n\n";

pub const BOOL_TYPE: &'static str = " :bool = ";

pub const SLICE_TYPE: &'static str = " :&[u8] = &";

pub const DEF_END: &'static str = ";\n\n";

pub const TRUE_TEXT: &'static str = "true";

pub const FALSE_TEXT: &'static str = "false";

pub const PAIR_END: &'static str = "\n\n";

pub const DUMP_OPEN: &'static str = "/// Prints all built-in `shadow-rs` build constants to standard output.\n#[allow(dead_code)]\n#[allow(clippy::all, clippy::pedantic, clippy::restriction, clippy::nursery)]\npub fn print_build_in() {\n";

pub const DUMP_CLOSE: &'static str = "}\n\n";

pub const PRINT_OPEN: &'static str = "\tprintln!(\"";

pub const PRINT_SHOW: &'static str = ":{";

pub const PRINT_SHOW_END: &'static str = "}\\n\");\n";

pub const PRINT_DEBUG: &'static str = ":{:?}\\n\",";

pub const PRINT_DEBUG_END: &'static str = ");\n";

pub const METADATA_FN: &'static str = r##"
use std::str::from_utf8;
use shadow_rs::cargo_metadata::Metadata;
use shadow_rs::serde_json;

/// Attempts to parse the Cargo package metadata from the generated constant `CARGO_METADATA`.
///
/// Returns a `Metadata` struct containing information about the Cargo workspace,
/// such as details about the packages and their dependencies.
///
/// # Return Values
/// - `Ok(Metadata)`: Contains the parsed metadata if successful.
/// - `Err(String)`: Returns an error message if converting the environment variable to a UTF-8 string or parsing JSON fails.
#[allow(dead_code)]
pub fn cargo_metadata() -> Result<Metadata, String> {
    let metadata_json = from_utf8(CARGO_METADATA).map_err(|err| err.to_string())?;
    let meta: Metadata = serde_json::from_str(metadata_json).map_err(|err| err.to_string())?;
    Ok(meta)
}
"##;

/// The failures of emission.
#[derive(Clone, Debug)]
pub enum ShadowError {
    /// A constant of boolean kind whose raw text is neither `true` nor `false`.
    MalformedConstant(String),
}

/// The header: provenance banner and generation time.
pub open spec fn header(ts: Seq<char>) -> Seq<char> {
    HEADER_OPEN@ + ts + HEADER_CLOSE@
}

/// The literal of a constant, or `None` when a boolean constant does not parse.
pub open spec fn literal(v: ConstVal) -> Option<Seq<char>> {
    match v.t {
        ConstType::Str => Some(STR_TYPE@ + v.v@ + STR_END@),
        ConstType::Bool => match parse_bool_spec(v.v@) {
            Some(b) => Some(BOOL_TYPE@ + (if b { TRUE_TEXT@ } else { FALSE_TEXT@ }) + DEF_END@),
            None => None,
        },
        ConstType::Slice => Some(SLICE_TYPE@ + byte_list(encode_utf8(v.v@)) + DEF_END@),
    }
}

/// Whether a constant can be written out.
pub open spec fn well_formed(v: ConstVal) -> bool {
    literal(v) is Some
}

/// The documented definition of one constant.
pub open spec fn const_block(k: Seq<char>, v: ConstVal) -> Seq<char> {
    DOC_OPEN@ + v.desc@ + DOC_CLOSE@ + DEF_OPEN@ + upper(k) + literal(v).unwrap()
}

/// The definitions of the constants named by `keys`, in that order.
pub open spec fn const_section(keys: Seq<Seq<char>>, m: RegistryMap) -> Seq<char>
    decreases keys.len(),
{
    if keys.len() == 0 {
        Seq::empty()
    } else {
        const_section(keys.drop_last(), m) + const_block(keys.last(), m[keys.last()])
    }
}

/// The two version definitions.
pub open spec fn version_section(k: VersionKind) -> Seq<char> {
    version_def(k) + PAIR_END@ + clap_version_def(k) + PAIR_END@
}

/// A print line showing a value in its natural form.
pub open spec fn show_line(name: Seq<char>) -> Seq<char> {
    PRINT_OPEN@ + name + PRINT_SHOW@ + name + PRINT_SHOW_END@
}

/// A print line showing a value in its debug form.
pub open spec fn debug_line(name: Seq<char>) -> Seq<char> {
    PRINT_OPEN@ + name + PRINT_DEBUG@ + name + PRINT_DEBUG_END@
}

/// The print line of one constant in the dump function.
pub open spec fn dump_line(k: Seq<char>, v: ConstVal) -> Seq<char> {
    match v.t {
        ConstType::Slice => debug_line(upper(k)),
        _ => show_line(upper(k)),
    }
}

/// The print lines of the constants named by `keys`, in that order.
pub open spec fn dump_lines(keys: Seq<Seq<char>>, m: RegistryMap) -> Seq<char>
    decreases keys.len(),
{
    if keys.len() == 0 {
        Seq::empty()
    } else {
        dump_lines(keys.drop_last(), m) + dump_line(keys.last(), m[keys.last()])
    }
}

/// The function that prints every constant and both version definitions.
pub open spec fn dump_fn(keys: Seq<Seq<char>>, m: RegistryMap) -> Seq<char> {
    DUMP_OPEN@ + dump_lines(keys, m) + show_line(BUILD_CONST_VERSION@) + show_line(
        BUILD_CONST_CLAP_LONG_VERSION@,
    ) + DUMP_CLOSE@
}

/// The metadata function, present when the package metadata was collected.
pub open spec fn metadata_fn(m: RegistryMap) -> Seq<char> {
    (if m.contains_key(CARGO_METADATA@) {
        METADATA_FN@
    } else {
        Seq::empty()
    }) + seq!['\n']
}

/// Everything after the header.
pub open spec fn body(keys: Seq<Seq<char>>, m: RegistryMap, k: VersionKind) -> Seq<char> {
    const_section(keys, m) + version_section(k) + dump_fn(keys, m) + metadata_fn(m)
}

/// The whole artifact.
pub open spec fn artifact(keys: Seq<Seq<char>>, m: RegistryMap, k: VersionKind, ts: Seq<char>) -> Seq<char> {
    header(ts) + body(keys, m, k)
}

/// Appends the definition of one constant, or reports it malformed.
pub fn write_const(out: &mut String, k: &String, v: &ConstVal) -> (r: Result<(), ShadowError>)
    ensures
        r is Ok <==> well_formed(*v),
        r is Ok ==> final(out)@ == old(out)@ + const_block(k@, *v),
        r matches Err(ShadowError::MalformedConstant(e)) ==> e@ == k@,
        r is Err ==> final(out)@ == old(out)@,
{
    let ghost start = out@;
    let lit: Option<bool> = match v.t {
        ConstType::Bool => {
            let b = parse_bool(v.v.as_str());
            if b.is_none() {
                return Err(ShadowError::MalformedConstant(k.clone()));
            }
            b
        },
        _ => None,
    };
    push_text(out, DOC_OPEN);
    push_text(out, v.desc.as_str());
    push_text(out, DOC_CLOSE);
    push_text(out, DEF_OPEN);
    push_upper(out, k.as_str());
    let ghost head = out@;
    match v.t {
        ConstType::Str => {
            push_text(out, STR_TYPE);
            push_text(out, v.v.as_str());
            push_text(out, STR_END);
        },
        ConstType::Bool => {
            push_text(out, BOOL_TYPE);
            if lit == Some(true) {
                push_text(out, TRUE_TEXT);
            } else {
                push_text(out, FALSE_TEXT);
            }
            push_text(out, DEF_END);
        },
        ConstType::Slice => {
            push_text(out, SLICE_TYPE);
            push_byte_list(out, v.v.as_str().as_bytes());
            push_text(out, DEF_END);
        },
    }
    assert(out@ =~= start + const_block(k@, *v));
    Ok(())
}

/// Appends the dump line of one constant.
pub fn write_dump_line(out: &mut String, k: &String, v: &ConstVal)
    ensures
        final(out)@ == old(out)@ + dump_line(k@, *v),
{
    let ghost start = out@;
    push_text(out, PRINT_OPEN);
    push_upper(out, k.as_str());
    match v.t {
        ConstType::Slice => {
            push_text(out, PRINT_DEBUG);
            push_upper(out, k.as_str());
            push_text(out, PRINT_DEBUG_END);
        },
        _ => {
            push_text(out, PRINT_SHOW);
            push_upper(out, k.as_str());
            push_text(out, PRINT_SHOW_END);
        },
    }
    assert(out@ =~= start + dump_line(k@, *v));
}

/// Appends a natural-form print line for a name.
fn write_show_line(out: &mut String, name: &str)
    ensures
        final(out)@ == old(out)@ + show_line(name@),
{
    let ghost start = out@;
    push_text(out, PRINT_OPEN);
    push_text(out, name);
    push_text(out, PRINT_SHOW);
    push_text(out, name);
    push_text(out, PRINT_SHOW_END);
    assert(out@ =~= start + show_line(name@));
}

/// Whether every constant named by `keys` can be written out.
pub open spec fn all_well_formed(keys: Seq<Seq<char>>, m: RegistryMap) -> bool {
    forall|i: int| 0 <= i < keys.len() ==> well_formed(#[trigger] m[keys[i]])
}

/// Whether `e` is the first identifier of `keys` whose constant cannot be written out.
pub open spec fn first_malformed(keys: Seq<Seq<char>>, m: RegistryMap, e: Seq<char>) -> bool {
    exists|i: int|
        0 <= i < keys.len() && keys[i] == e && !well_formed(m[e]) && forall|j: int|
            0 <= j < i ==> well_formed(#[trigger] m[keys[j]])
}

/// Appends the definitions of every constant in key order, or reports a malformed one.
fn write_consts(out: &mut String, reg: &Registry) -> (r: Result<(), ShadowError>)
    requires
        reg.wf(),
    ensures
        r is Ok <==> all_well_formed(reg.key_seq(), reg@),
        r is Ok ==> final(out)@ == old(out)@ + const_section(reg.key_seq(), reg@),
        r matches Err(ShadowError::MalformedConstant(e)) ==> exists|i: int|
            0 <= i < reg.key_seq().len() && reg.key_seq()[i] == e@ && final(out)@ == old(out)@
                + const_section(reg.key_seq().subrange(0, i), reg@),
        r matches Err(ShadowError::MalformedConstant(e)) ==> first_malformed(reg.key_seq(), reg@, e@),
{
    let ghost keys = reg.key_seq();
    let ghost m = reg@;
    let ghost start = out@;
    let n = reg.len();
    let mut i: usize = 0;
    proof {
        assert(const_section(keys.subrange(0, 0), m) =~= Seq::<char>::empty());
    }
    while i < n
        invariant
            reg.wf(),
            n == keys.len(),
            keys == reg.key_seq(),
            m == reg@,
            i <= n,
            all_well_formed(keys.subrange(0, i as int), m),
            start == old(out)@,
            out@ == start + const_section(keys.subrange(0, i as int), m),
        decreases n - i,
    {
        let k = reg.key_at(i);
        let v = reg.value_at(i);
        let w = write_const(out, k, v);
        let ghost sub = keys.subrange(0, i + 1);
        proof {
            assert(sub.drop_last() =~= keys.subrange(0, i as int));
        }
        match w {
            Err(ShadowError::MalformedConstant(name)) => {
                proof {
                    assert(keys[i as int] == k@);
                    assert(!all_well_formed(keys, m));
                    assert forall|j: int| 0 <= j < i implies well_formed(#[trigger] m[keys[j]]) by {
                        assert(keys.subrange(0, i as int)[j] == keys[j]);
                    }
                    assert(keys[i as int] == name@ && out@ == start + const_section(
                        keys.subrange(0, i as int),
                        m,
                    ));
                    let ii = i as int;
                    assert(0 <= ii < reg.key_seq().len() && reg.key_seq()[ii] == name@ && out@ == old(out)@
                        + const_section(reg.key_seq().subrange(0, ii), reg@));
                }
                return Err(ShadowError::MalformedConstant(name));
            },
            Ok(()) => {},
        }
        proof {
            assert(out@ =~= start + const_section(sub, m));
            assert forall|j: int| 0 <= j < i + 1 implies well_formed(#[trigger] m[sub[j]]) by {
                if j < i {
                    assert(sub[j] == keys.subrange(0, i as int)[j]);
                }
            }
        }
        i = i + 1;
    }
    proof {
        assert(keys.subrange(0, n as int) =~= keys);
    }
    Ok(())
}

/// Appends the function that prints every constant and both version definitions.
fn write_dump(out: &mut String, reg: &Registry)
    requires
        reg.wf(),
    ensures
        final(out)@ == old(out)@ + dump_fn(reg.key_seq(), reg@),
{
    let ghost keys = reg.key_seq();
    let ghost m = reg@;
    let ghost start = out@;
    push_text(out, DUMP_OPEN);
    let ghost dump_start = out@;
    let n = reg.len();
    let mut i: usize = 0;
    proof {
        assert(dump_lines(keys.subrange(0, 0), m) =~= Seq::<char>::empty());
    }
    while i < n
        invariant
            reg.wf(),
            n == keys.len(),
            keys == reg.key_seq(),
            m == reg@,
            i <= n,
            out@ == dump_start + dump_lines(keys.subrange(0, i as int), m),
        decreases n - i,
    {
        let k = reg.key_at(i);
        let v = reg.value_at(i);
        write_dump_line(out, k, v);
        proof {
            assert(keys.subrange(0, i + 1).drop_last() =~= keys.subrange(0, i as int));
            assert(out@ =~= dump_start + dump_lines(keys.subrange(0, i + 1), m));
        }
        i = i + 1;
    }
    proof {
        assert(keys.subrange(0, n as int) =~= keys);
    }
    write_show_line(out, BUILD_CONST_VERSION);
    write_show_line(out, BUILD_CONST_CLAP_LONG_VERSION);
    push_text(out, DUMP_CLOSE);
    assert(out@ =~= start + dump_fn(keys, m));
}

/// Writes the artifact for a registry, a version choice and a generation time. Fails exactly
/// when some boolean constant does not parse, naming one such constant.
pub fn emit(reg: &Registry, kind: VersionKind, ts: &str) -> (r: Result<String, ShadowError>)
    requires
        reg.wf(),
    ensures
        r is Ok <==> all_well_formed(reg.key_seq(), reg@),
        r matches Ok(s) ==> s@ == artifact(reg.key_seq(), reg@, kind, ts@),
        r matches Err(ShadowError::MalformedConstant(e)) ==> first_malformed(reg.key_seq(), reg@, e@),
{
    let ghost keys = reg.key_seq();
    let ghost m = reg@;
    let mut out = String::new();
    push_text(&mut out, HEADER_OPEN);
    push_text(&mut out, ts);
    push_text(&mut out, HEADER_CLOSE);
    let ghost after_header = out@;
    write_consts(&mut out, reg)?;
    let ghost after_consts = out@;
    let (ver, clap) = version_defs(kind);
    push_text(&mut out, ver);
    push_text(&mut out, PAIR_END);
    push_text(&mut out, clap);
    push_text(&mut out, PAIR_END);
    let ghost after_version = out@;
    write_dump(&mut out, reg);
    let ghost after_dump = out@;
    let meta = String::from_str(CARGO_METADATA);
    if reg.contains(&meta) {
        push_text(&mut out, METADATA_FN);
    }
    out.push('\n');
    proof {
        assert(after_header =~= header(ts@));
        assert(after_version =~= after_consts + version_section(kind));
        assert(out@ =~= after_dump + metadata_fn(m));
        assert(out@ =~= artifact(keys, m, kind, ts@));
    }
    Ok(out)
}

/// Two emissions from registries with the same contents and the same version choice differ
/// at most in the generation time of the header: everything after it is equal.
pub proof fn lemma_emit_deterministic(
    r1: &Registry,
    r2: &Registry,
    kind: VersionKind,
    ts1: Seq<char>,
    ts2: Seq<char>,
)
    requires
        r1.wf(),
        r2.wf(),
        r1@ == r2@,
    ensures
        artifact(r1.key_seq(), r1@, kind, ts1) == header(ts1) + body(r2.key_seq(), r2@, kind),
        artifact(r2.key_seq(), r2@, kind, ts2) == header(ts2) + body(r2.key_seq(), r2@, kind),
        ts1 == ts2 ==> artifact(r1.key_seq(), r1@, kind, ts1) == artifact(
            r2.key_seq(),
            r2@,
            kind,
            ts2,
        ),
{
    lemma_contents_fix_order(r1, r2);
}

/// A boolean constant can be written exactly when its raw text is `true` or `false`; it is then
/// written as that same literal, and any other text makes emission fail.
pub proof fn lemma_bool_round_trip(v: ConstVal)
    requires
        v.t == ConstType::Bool,
    ensures
        well_formed(v) <==> (v.v@ == seq!['t', 'r', 'u', 'e'] || v.v@ == seq!['f', 'a', 'l', 's', 'e']),
        well_formed(v) ==> literal(v).unwrap() == BOOL_TYPE@ + v.v@ + DEF_END@,
{
    reveal_strlit("true");
    reveal_strlit("false");
    assert(TRUE_TEXT@ =~= seq!['t', 'r', 'u', 'e']);
    assert(FALSE_TEXT@ =~= seq!['f', 'a', 'l', 's', 'e']);
}

} // verus!
