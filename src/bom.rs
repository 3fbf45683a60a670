//! An example document, a bill of materials, whose nodes are checked with
//! the validation engine.

use vstd::prelude::*;
use vstd::utf8::encode_utf8;

use crate::validation::{
    checked_each, failures, field_messages, has_failure, key_present, list_outcome, struct_outcome, ErrorKindView, SpecVersion, Validate, ValidationContext, ValidationError, ValidationResult,
};

verus! {

/// A string is too large when its UTF-8 encoding takes more than four bytes.
pub open spec fn too_long(s: Seq<char>) -> bool {
    encode_utf8(s).len() > 4
}

/// The message that the length rule gives for `s`, if it rejects it.
pub open spec fn string_error(s: Seq<char>) -> Option<Seq<char>> {
    if too_long(s) {
        Some("String is too large"@)
    } else {
        None
    }
}

/// The message that the timestamp rule gives for `s`, if it rejects it.
pub open spec fn timestamp_error(s: Seq<char>) -> Option<Seq<char>> {
    if s.contains('a') {
        Some("timestamp contains char 'a'"@)
    } else {
        None
    }
}

/// `r` passes when `expected` is `None`, and fails with that message
/// otherwise.
pub open spec fn check_outcome(r: Result<(), ValidationError>, expected: Option<Seq<char>>) -> bool {
    match expected {
        None => r is Ok,
        Some(m) => r matches Err(e) && e@ == m,
    }
}

/// The entry that a field check under `name` adds, if it fails.
pub open spec fn field_entry(name: Seq<char>, error: Option<Seq<char>>) -> Seq<
    (Seq<char>, ErrorKindView),
> {
    match error {
        Some(m) => seq![(name, ErrorKindView::Field(seq![m]))],
        None => Seq::empty(),
    }
}

/// Whether `c` occurs in `s`.
fn contains_char(s: &str, c: char) -> (r: bool)
    ensures
        r == s@.contains(c),
{
    let n = s.unicode_len();
    let mut i: usize = 0;
    while i < n
        invariant
            n == s@.len(),
            i <= n,
            forall|k: int| 0 <= k < i ==> s@[k] != c,
        decreases n - i,
    {
        if s.get_char(i) == c {
            assert(s@[i as int] == c);
            return true;
        }
        i = i + 1;
    }
    false
}

/// A timestamp must not contain the character `a`.
pub fn validate_timestamp(input: &str) -> (r: Result<(), ValidationError>)
    ensures
        check_outcome(r, timestamp_error(input@)),
{
    if contains_char(input, 'a') {
        return Err(ValidationError::new("timestamp contains char 'a'"));
    }
    Ok(())
}

/// A string may take at most four bytes.
pub fn validate_string(input: &str) -> (r: Result<(), ValidationError>)
    ensures
        check_outcome(r, string_error(input@)),
{
    if input.as_bytes().len() > 4 {
        return Err(ValidationError::new("String is too large"));
    }
    Ok(())
}

/// Every vendor is accepted.
pub fn validate_vendor(_input: &str) -> (r: Result<(), ValidationError>)
    ensures
        r is Ok,
{
    Ok(())
}

/// A tool must not be a hammer.
pub fn validate_toolkind(kind: &ToolKind) -> (r: Result<(), ValidationError>)
    ensures
        check_outcome(
            r,
            if *kind is Hammer {
                Some("Tool must not be a hammer"@)
            } else {
                None
            },
        ),
{
    if matches!(kind, ToolKind::Hammer) {
        return Err(ValidationError::new("Tool must not be a hammer"));
    }
    Ok(())
}

/// The vendor rule on an owned string.
fn check_vendor(vendor: &String) -> (r: Result<(), ValidationError>)
    ensures
        r is Ok,
{
    validate_vendor(vendor.as_str())
}

/// The length rule on an owned string.
fn check_length(s: &String) -> (r: Result<(), ValidationError>)
    ensures
        check_outcome(r, string_error(s@)),
{
    validate_string(s.as_str())
}

/// The timestamp rule on an owned string.
fn check_timestamp(s: &String) -> (r: Result<(), ValidationError>)
    ensures
        check_outcome(r, timestamp_error(s@)),
{
    validate_timestamp(s.as_str())
}

#[derive(Debug)]
pub enum ToolKind {
    Hammer,
    ScrewDriver,
}

#[derive(Debug)]
pub struct Tool {
    pub vendor: Option<String>,
    pub name: Option<String>,
    pub kind: ToolKind,
}

/// The error tree of a tool: its name's length, then its kind.
pub open spec fn tool_tree(t: Tool) -> Seq<(Seq<char>, ErrorKindView)> {
    let name_part = match t.name {
        Some(n) => field_entry("name"@, string_error(n@)),
        None => Seq::empty(),
    };
    let kind_part = if t.kind is Hammer {
        seq![("kind"@, ErrorKindView::Enum("Tool must not be a hammer"@))]
    } else {
        Seq::empty()
    };
    name_part + kind_part
}

impl Validate for Tool {
    fn validate(&self, _version: SpecVersion) -> (r: ValidationResult)
        ensures
            r.tree() == tool_tree(*self),
    {
        proof {
            reveal_strlit("name");
            reveal_strlit("kind");
            reveal_strlit("vendor");
        }
        let builder = ValidationContext::new();
        let builder = builder.add_field("vendor", self.vendor.as_ref(), check_vendor);
        let builder = builder.add_field("name", self.name.as_ref(), check_length);
        let ghost after_name = builder@;
        assert("name"@[0] != "kind"@[0]);
        assert(!key_present(after_name.tree(), "kind"@));
        let builder = builder.add_enum("kind", Some(&self.kind), validate_toolkind);
        let r = builder.finish();
        assert(r.tree() =~= tool_tree(*self));
        r
    }
}

/// The tool fails some check.
pub open spec fn tool_fails(t: Tool) -> bool {
    tool_tree(t).len() > 0
}

/// Some tool of the list fails.
pub open spec fn some_tool_fails(tools: Seq<Tool>) -> bool {
    exists|i: int| 0 <= i < tools.len() && tool_fails(#[trigger] tools[i])
}

/// `k` is the list entry for `tools`: exactly the failing positions, each
/// with that tool's own tree.
pub open spec fn tools_entry(k: ErrorKindView, tools: Seq<Tool>) -> bool {
    &&& k is List
    &&& forall|i: usize| #[trigger]
        k->List_0.contains_key(i) <==> (i < tools.len() && tool_fails(tools[i as int]))
    &&& forall|i: usize| #[trigger]
        k->List_0.contains_key(i) ==> k->List_0[i]@ == tool_tree(tools[i as int])
}

/// The timestamp rule of a version: the length rule for 1.4, the character
/// rule for the others.
pub open spec fn timestamp_rule(version: SpecVersion, s: Seq<char>) -> Option<Seq<char>> {
    match version {
        SpecVersion::V1_4 => string_error(s),
        _ => timestamp_error(s),
    }
}

/// The error of the metadata's timestamp under `version`, if any.
pub open spec fn metadata_timestamp_error(md: Metadata, version: SpecVersion) -> Option<
    Seq<char>,
> {
    match md.timestamp {
        Some(t) => timestamp_rule(version, t@),
        None => None,
    }
}

/// Some tool of the metadata fails.
pub open spec fn tools_fail(md: Metadata) -> bool {
    md.tools matches Some(ts) && some_tool_fails(ts@)
}

/// The metadata fails some check under `version`.
pub open spec fn metadata_fails(md: Metadata, version: SpecVersion) -> bool {
    tools_fail(md) || metadata_timestamp_error(md, version) is Some
}

/// `s` is the error tree of the metadata under `version`: the failing tools
/// first, then the timestamp.
pub open spec fn metadata_tree(md: Metadata, version: SpecVersion, s: Seq<(Seq<char>, ErrorKindView)>) -> bool {
    let n: int = if tools_fail(md) {
        1
    } else {
        0
    };
    let stamp = field_entry("timestamp"@, metadata_timestamp_error(md, version));
    &&& s.len() == n + stamp.len()
    &&& tools_fail(md) ==> s[0].0 == "tools"@ && tools_entry(s[0].1, md.tools->Some_0@)
    &&& s.subrange(n, s.len() as int) == stamp
}

#[derive(Debug)]
pub struct Metadata {
    pub timestamp: Option<String>,
    pub tools: Option<Vec<Tool>>,
}

impl Validate for Metadata {
    fn validate(&self, version: SpecVersion) -> (r: ValidationResult)
        ensures
            metadata_tree(*self, version, r.tree()),
    {
        proof {
            reveal_strlit("tools");
            reveal_strlit("timestamp");
        }
        let check_tool = |tool: &Tool| -> (r: ValidationResult)
            ensures
                r.wf(),
                r.tree() == tool_tree(*tool),
        {
            tool.validate(version)
        };
        let mut builder = ValidationContext::new();
        match &self.tools {
            Some(tools) => {
                builder = builder.add_list("tools", tools, check_tool);
                proof {
                    let outs = choose|outs: Seq<ValidationResult>|
                        #[trigger] checked_each(check_tool, tools@, outs) && list_outcome(
                            ValidationResult::Passed,
                            builder@,
                            "tools"@,
                            outs,
                        );
                    assert forall|i: int| 0 <= i < outs.len() implies (outs[i] is Error
                        <==> tool_fails(tools@[i])) && (outs[i] is Error ==> outs[i]->Error_0@
                        == tool_tree(tools@[i])) by {
                        assert(check_tool.ensures((&tools@[i],), outs[i]));
                    }
                    assert(has_failure(outs) == some_tool_fails(tools@)) by {
                        if has_failure(outs) {
                            let i = choose|i: int| 0 <= i < outs.len() && (#[trigger] outs[i]) is Error;
                            assert(tool_fails(tools@[i]));
                        }
                        if some_tool_fails(tools@) {
                            let i = choose|i: int| 0 <= i < tools@.len() && tool_fails(#[trigger] tools@[i]);
                            assert(outs[i] is Error);
                        }
                    }
                    if has_failure(outs) {
                        assert(tools_entry(ErrorKindView::List(failures(outs)), tools@));
                    }
                }
            },
            None => {},
        }
        let ghost after_tools = builder@;
        assert(!key_present(after_tools.tree(), "timestamp"@) || after_tools.tree().len() == 0) by {
            assert("tools"@[1] != "timestamp"@[1]);
        }
        builder = match version {
            SpecVersion::V1_4 => builder.add_field("timestamp", self.timestamp.as_ref(), check_length),
            _ => builder.add_field("timestamp", self.timestamp.as_ref(), check_timestamp),
        };
        let r = builder.finish();
        assert(r.tree().subrange(after_tools.tree().len() as int, r.tree().len() as int) =~= field_entry(
            "timestamp"@,
            metadata_timestamp_error(*self, version),
        ));
        r
    }
}

/// `s` is the error tree of the document under `version`: the serial
/// number's length, then the metadata's own tree as one struct entry.
pub open spec fn bom_tree(b: Bom, version: SpecVersion, s: Seq<(Seq<char>, ErrorKindView)>) -> bool {
    let serial = match b.serial_number {
        Some(sn) => field_entry("serial_number"@, string_error(sn@)),
        None => Seq::empty(),
    };
    let md_fails = b.meta_data matches Some(md) && metadata_fails(md, version);
    &&& s.len() == serial.len() + if md_fails {
        1int
    } else {
        0int
    }
    &&& s.subrange(0, serial.len() as int) == serial
    &&& md_fails ==> {
        &&& s[serial.len() as int].0 == "meta_data"@
        &&& s[serial.len() as int].1 is Struct
        &&& metadata_tree(b.meta_data->Some_0, version, s[serial.len() as int].1->Struct_0@)
    }
}

/// A bill of materials.
#[derive(Debug)]
pub struct Bom {
    pub serial_number: Option<String>,
    pub meta_data: Option<Metadata>,
}

impl Validate for Bom {
    fn validate(&self, version: SpecVersion) -> (r: ValidationResult)
        ensures
            bom_tree(*self, version, r.tree()),
    {
        proof {
            reveal_strlit("serial_number");
            reveal_strlit("meta_data");
        }
        let check_metadata = |md: &Metadata| -> (r: ValidationResult)
            ensures
                r.wf(),
                metadata_tree(*md, version, r.tree()),
        {
            md.validate(version)
        };
        let builder = ValidationContext::new();
        let builder = builder.add_field("serial_number", self.serial_number.as_ref(), check_length);
        let ghost after_serial = builder@;
        assert(!key_present(after_serial.tree(), "meta_data"@)) by {
            assert("serial_number"@[0] != "meta_data"@[0]);
        }
        let builder = builder.add_struct("meta_data", self.meta_data.as_ref(), check_metadata);
        let r = builder.finish();
        proof {
            if self.meta_data is Some {
                let md = self.meta_data->Some_0;
                let out = choose|out: ValidationResult|
                    #[trigger] check_metadata.ensures((&md,), out) && struct_outcome(
                        after_serial,
                        r,
                        "meta_data"@,
                        out,
                    );
                assert(out is Error <==> metadata_fails(md, version)) by {
                    if !tools_fail(md) {
                        assert(out.tree().len() == field_entry(
                            "timestamp"@,
                            metadata_timestamp_error(md, version),
                        ).len());
                    }
                }
            }
            assert(r.tree().subrange(0, after_serial.tree().len() as int) =~= after_serial.tree());
        }
        r
    }
}

/// Validates the document under `version`.
pub fn validate_bom(version: SpecVersion, bom: Bom) -> (r: ValidationResult)
    ensures
        r.wf(),
        bom_tree(bom, version, r.tree()),
{
    bom.validate(version)
}

/// The entry a field check adds determines the check's outcome.
proof fn lemma_field_entry_injective(name: Seq<char>, a: Option<Seq<char>>, b: Option<Seq<char>>)
    requires
        a != b,
    ensures
        field_entry(name, a) != field_entry(name, b),
{
    if a is Some && b is Some {
        let fa = field_entry(name, a);
        let fb = field_entry(name, b);
        assert(field_messages(fa[0].1)[0] != field_messages(fb[0].1)[0]);
    } else {
        assert(field_entry(name, a).len() != field_entry(name, b).len());
    }
}

/// Where the timestamp rules of two versions disagree on a document's
/// timestamp, validating the document under each gives different trees.
pub proof fn lemma_version_sensitivity(
    b: Bom,
    va: SpecVersion,
    vb: SpecVersion,
    sa: Seq<(Seq<char>, ErrorKindView)>,
    sb: Seq<(Seq<char>, ErrorKindView)>,
)
    requires
        bom_tree(b, va, sa),
        bom_tree(b, vb, sb),
        b.meta_data is Some,
        metadata_timestamp_error(b.meta_data->Some_0, va) != metadata_timestamp_error(
            b.meta_data->Some_0,
            vb,
        ),
    ensures
        sa != sb,
{
    let md = b.meta_data->Some_0;
    let ea = metadata_timestamp_error(md, va);
    let eb = metadata_timestamp_error(md, vb);
    lemma_field_entry_injective("timestamp"@, ea, eb);
    if sa == sb && metadata_fails(md, va) && metadata_fails(md, vb) {
        let k: int = match b.serial_number {
            Some(sn) => field_entry("serial_number"@, string_error(sn@)).len() as int,
            None => 0,
        };
        let t = sa[k].1->Struct_0@;
        let n: int = if tools_fail(md) {
            1
        } else {
            0
        };
        assert(t.subrange(n, t.len() as int) == field_entry("timestamp"@, ea));
        assert(t.subrange(n, t.len() as int) == field_entry("timestamp"@, eb));
    }
}

} // verus!
