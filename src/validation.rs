//! The error tree, the merge operations that lift a child's outcome into
//! its parent, and the builder that threads a result through one node.

use indexmap::IndexMap;
use std::collections::BTreeMap;
use vstd::prelude::*;

verus! {

/// The document format revision that selects which rules apply.
#[derive(Debug, PartialEq, Eq, Structural, Copy, Clone)]
pub enum SpecVersion {
    V1_3,
    V1_4,
    V1_5,
}

/// A single validation error with a message, to log or display for a user.
#[derive(Debug, Clone, PartialEq)]
pub struct ValidationError {
    pub message: String,
}

impl View for ValidationError {
    type V = Seq<char>;

    open spec fn view(&self) -> Seq<char> {
        self.message@
    }
}

impl ValidationError {
    pub fn new(message: &str) -> (r: ValidationError)
        ensures
            r@ == message@,
    {
        ValidationError { message: message.to_owned() }
    }
}

/// What a name of an error tree holds.
#[derive(Debug, PartialEq)]
pub enum ValidationErrorsKind {
    /// The error tree of a nested object.
    Struct(ValidationErrors),
    /// The error trees of the failing elements of a list, by position.
    List(BTreeMap<usize, ValidationErrors>),
    /// The errors of a single scalar field, in the order they were found.
    Field(Vec<ValidationError>),
    /// The single error of an enum field whose variant is not allowed.
    Enum(ValidationError),
}

/// The mathematical model of a [`ValidationErrorsKind`]: messages as
/// character sequences, a list's failures as a map from position to tree.
pub enum ErrorKindView {
    Struct(ValidationErrors),
    List(Map<usize, ValidationErrors>),
    Field(Seq<Seq<char>>),
    Enum(Seq<char>),
}

impl View for ValidationErrorsKind {
    type V = ErrorKindView;

    open spec fn view(&self) -> ErrorKindView {
        match self {
            ValidationErrorsKind::Struct(e) => ErrorKindView::Struct(*e),
            ValidationErrorsKind::List(m) => ErrorKindView::List(m@),
            ValidationErrorsKind::Field(v) => ErrorKindView::Field(
                v@.map_values(|e: ValidationError| e@),
            ),
            ValidationErrorsKind::Enum(e) => ErrorKindView::Enum(e@),
        }
    }
}

/// The outcome of validating a document node: it passed, or it failed with
/// a non-empty error tree.
#[derive(Debug, PartialEq)]
pub enum ValidationResult {
    Passed,
    Error(ValidationErrors),
}

impl Default for ValidationResult {
    fn default() -> (r: ValidationResult)
        ensures
            r is Passed,
    {
        ValidationResult::Passed
    }
}

impl ValidationResult {
    /// The error tree of the outcome; that of a passed node is empty.
    pub open spec fn tree(&self) -> Seq<(Seq<char>, ErrorKindView)> {
        match self {
            ValidationResult::Passed => Seq::empty(),
            ValidationResult::Error(e) => e@,
        }
    }

    /// A failure carries a well-formed tree with at least one entry, so that
    /// `Passed` is the only outcome whose tree is empty.
    pub open spec fn wf(&self) -> bool {
        match self {
            ValidationResult::Passed => true,
            ValidationResult::Error(e) => e.wf() && e@.len() > 0,
        }
    }

    pub fn passed(&self) -> (r: bool)
        ensures
            r == (self is Passed),
    {
        match self {
            ValidationResult::Passed => true,
            ValidationResult::Error(_) => false,
        }
    }

    pub fn has_errors(&self) -> (r: bool)
        ensures
            r == (self is Error),
    {
        match self {
            ValidationResult::Passed => false,
            ValidationResult::Error(_) => true,
        }
    }

    pub fn errors(&self) -> (r: Option<&ValidationErrors>)
        ensures
            match self {
                ValidationResult::Passed => r is None,
                ValidationResult::Error(e) => r == Some(e),
            },
    {
        match self {
            ValidationResult::Passed => None,
            ValidationResult::Error(errors) => Some(errors),
        }
    }

    /// The error tree of the outcome, empty for `Passed`.
    pub fn into_errors(self) -> (r: ValidationErrors)
        requires
            self.wf(),
        ensures
            r.wf(),
            r@ == self.tree(),
            self matches ValidationResult::Error(e) ==> r == e,
    {
        match self {
            ValidationResult::Passed => ValidationErrors::new(),
            ValidationResult::Error(errors) => errors,
        }
    }

    /// The outcome whose tree is `errors`: an empty tree gives `Passed`.
    pub fn from_errors(errors: ValidationErrors) -> (r: ValidationResult)
        requires
            errors.wf(),
        ensures
            r.wf(),
            r.tree() == errors@,
            r is Passed <==> errors@.len() == 0,
    {
        if errors.is_empty() {
            ValidationResult::Passed
        } else {
            ValidationResult::Error(errors)
        }
    }
}

/// Some child of a list failed.
pub open spec fn has_failure(children: Seq<ValidationResult>) -> bool {
    exists|i: int| 0 <= i < children.len() && (#[trigger] children[i]) is Error
}

/// The error trees of the failing children, keyed by their position.
pub open spec fn failures(children: Seq<ValidationResult>) -> Map<usize, ValidationErrors> {
    Map::new(
        |i: usize| (i as int) < children.len() && children[i as int] is Error,
        |i: usize| children[i as int]->Error_0,
    )
}

/// Every child outcome is well formed.
pub open spec fn all_wf(children: Seq<ValidationResult>) -> bool {
    forall|i: int| 0 <= i < children.len() ==> (#[trigger] children[i]).wf()
}

/// One level of an error tree: names mapped to what they hold, in the
/// order in which they were first added.
///
/// The map holds kinds that hold trees of this type again, a recursion that
/// Verus does not accept through a declared `IndexMap`; so the map is kept
/// opaque here, and reached only through the wrappers below, whose contracts
/// speak of `error_entries`.
#[verifier::external_body]
#[derive(Debug, PartialEq)]
pub struct ValidationErrors {
    inner: IndexMap<String, ValidationErrorsKind>,
}

/// The entries of a tree level, in insertion order.
pub uninterp spec fn error_entries(errors: ValidationErrors) -> Seq<(Seq<char>, ErrorKindView)>;

impl View for ValidationErrors {
    type V = Seq<(Seq<char>, ErrorKindView)>;

    open spec fn view(&self) -> Seq<(Seq<char>, ErrorKindView)> {
        error_entries(*self)
    }
}

/// Whether some entry of `s` is named `name`.
pub open spec fn key_present(s: Seq<(Seq<char>, ErrorKindView)>, name: Seq<char>) -> bool {
    exists|i: int| 0 <= i < s.len() && #[trigger] s[i].0 == name
}

/// The position of the entry named `name`, where there is one.
pub open spec fn key_index(s: Seq<(Seq<char>, ErrorKindView)>, name: Seq<char>) -> int {
    choose|i: int| 0 <= i < s.len() && #[trigger] s[i].0 == name
}

/// No two entries share a name.
pub open spec fn keys_unique(s: Seq<(Seq<char>, ErrorKindView)>) -> bool {
    forall|i: int, j: int| 0 <= i < j < s.len() ==> s[i].0 != s[j].0
}

/// A list entry has at least one failing position, each with a non-empty tree.
pub open spec fn trees_nonempty(m: Map<usize, ValidationErrors>) -> bool {
    &&& exists|i: usize| m.contains_key(i)
    &&& forall|i: usize| #[trigger] m.contains_key(i) ==> m[i]@.len() > 0
}

/// An entry that is present holds at least one error.
pub open spec fn kind_nonempty(k: ErrorKindView) -> bool {
    match k {
        ErrorKindView::Struct(e) => e@.len() > 0,
        ErrorKindView::List(m) => trees_nonempty(m),
        ErrorKindView::Field(v) => v.len() > 0,
        ErrorKindView::Enum(_) => true,
    }
}

/// Names are unique and no entry is an empty placeholder.
pub open spec fn entries_wf(s: Seq<(Seq<char>, ErrorKindView)>) -> bool {
    &&& keys_unique(s)
    &&& forall|i: int| 0 <= i < s.len() ==> kind_nonempty(#[trigger] s[i].1)
}

/// A field error may be added under `name`: the name is free or holds
/// field errors already.
pub open spec fn field_slot_open(s: Seq<(Seq<char>, ErrorKindView)>, name: Seq<char>) -> bool {
    forall|i: int| 0 <= i < s.len() && #[trigger] s[i].0 == name ==> s[i].1 is Field
}

/// The messages of a field entry.
pub open spec fn field_messages(k: ErrorKindView) -> Seq<Seq<char>> {
    match k {
        ErrorKindView::Field(v) => v,
        _ => Seq::empty(),
    }
}

/// `s` after appending `msg` to the field errors under `name`.
pub open spec fn with_field_error(
    s: Seq<(Seq<char>, ErrorKindView)>,
    name: Seq<char>,
    msg: Seq<char>,
) -> Seq<(Seq<char>, ErrorKindView)> {
    if key_present(s, name) {
        let i = key_index(s, name);
        s.update(i, (name, ErrorKindView::Field(field_messages(s[i].1).push(msg))))
    } else {
        s.push((name, ErrorKindView::Field(seq![msg])))
    }
}

impl Default for ValidationErrors {
    fn default() -> (r: ValidationErrors)
        ensures
            r@.len() == 0,
            r.wf(),
    {
        ValidationErrors::new()
    }
}

impl ValidationErrors {
    /// Relies on `IndexMap::new`: a new map holds no entries.
    #[verifier::external_body]
    fn empty_map() -> (r: ValidationErrors)
        ensures
            error_entries(r) == Seq::<(Seq<char>, ErrorKindView)>::empty(),
    {
        ValidationErrors { inner: IndexMap::new() }
    }

    /// Relies on `IndexMap::contains_key`: true iff an entry has this key.
    #[verifier::external_body]
    fn map_contains(&self, key: &str) -> (r: bool)
        ensures
            r == key_present(error_entries(*self), key@),
    {
        self.inner.contains_key(key)
    }

    /// Relies on `IndexMap::is_empty`: true iff the map has no entries.
    #[verifier::external_body]
    fn map_is_empty(&self) -> (r: bool)
        ensures
            r == (error_entries(*self).len() == 0),
    {
        self.inner.is_empty()
    }

    /// Relies on `IndexMap::insert`: a key that is present keeps its place
    /// and takes the new value, and the old value is returned; a new key is
    /// appended last.
    #[verifier::external_body]
    fn map_insert(&mut self, key: &str, kind: ValidationErrorsKind) -> (r: Option<
        ValidationErrorsKind,
    >)
        ensures
            ({
                let before = error_entries(*old(self));
                let after = error_entries(*final(self));
                match r {
                    Some(prev) => exists|i: int|
                        0 <= i < before.len() && before[i].0 == key@ && prev@ == before[i].1
                            && after == #[trigger] before.update(i, (key@, kind@)),
                    None => !key_present(before, key@) && after == before.push((key@, kind@)),
                }
            }),
    {
        self.inner.insert(key.to_string(), kind)
    }

    /// Names are unique on this level, and each entry holds an error. The
    /// nested trees were checked when they were built.
    pub open spec fn wf(&self) -> bool {
        entries_wf(self@)
    }

    /// An empty error tree.
    pub fn new() -> (r: ValidationErrors)
        ensures
            r@.len() == 0,
            r.wf(),
    {
        ValidationErrors::empty_map()
    }

    /// Whether a failed check left an entry under `field`.
    pub fn has_error(result: &Result<(), ValidationErrors>, field: &str) -> (r: bool)
        ensures
            r == match result {
                Ok(()) => false,
                Err(errors) => key_present(errors@, field@),
            },
    {
        match result {
            Ok(()) => false,
            Err(errors) => errors.contains_key(field),
        }
    }

    pub fn contains_key(&self, key: &str) -> (r: bool)
        ensures
            r == key_present(self@, key@),
    {
        self.map_contains(key)
    }

    pub fn is_empty(&self) -> (r: bool)
        ensures
            r == (self@.len() == 0),
    {
        self.map_is_empty()
    }
    /// Adds the error of an enum field under `enum_name`, which must be free.
    pub fn add_enum(&mut self, enum_name: &str, validation_error: ValidationError)
        requires
            old(self).wf(),
            !key_present(old(self)@, enum_name@),
        ensures
            final(self).wf(),
            final(self)@ == old(self)@.push((enum_name@, ErrorKindView::Enum(validation_error@))),
    {
        let prev = self.map_insert(enum_name, ValidationErrorsKind::Enum(validation_error));
        assert(prev is None);
        assert(self@.last() == (enum_name@, ErrorKindView::Enum(validation_error@)));
    }

    /// Adds a nested tree, of a struct or a list, under `nested_name`, which
    /// must be free. The kind must hold at least one error.
    pub fn add_nested(&mut self, nested_name: &str, errors_kind: ValidationErrorsKind)
        requires
            old(self).wf(),
            !key_present(old(self)@, nested_name@),
            kind_nonempty(errors_kind@),
        ensures
            final(self).wf(),
            final(self)@ == old(self)@.push((nested_name@, errors_kind@)),
    {
        let ghost kind_view = errors_kind@;
        let prev = self.map_insert(nested_name, errors_kind);
        assert(prev is None);
        assert(self@.last() == (nested_name@, kind_view));
    }

    /// Appends a field error under `field_name`, opening a field entry there
    /// on first use. The name must not hold another kind.
    pub fn add_field(&mut self, field_name: &str, validation_error: ValidationError)
        requires
            old(self).wf(),
            field_slot_open(old(self)@, field_name@),
        ensures
            final(self).wf(),
            final(self)@ == with_field_error(old(self)@, field_name@, validation_error@),
    {
        let ghost before = self@;
        let ghost msg = validation_error@;
        let placeholder = ValidationErrorsKind::Field(Vec::new());
        let ghost pv = placeholder@;
        let prev = self.map_insert(field_name, placeholder);
        match prev {
            None => {
                let ghost mid = self@;
                let mut messages: Vec<ValidationError> = Vec::new();
                messages.push(validation_error);
                let ghost new_kind = ValidationErrorsKind::Field(messages)@;
                assert(new_kind == ErrorKindView::Field(seq![msg])) by {
                    assert(messages@.map_values(|e: ValidationError| e@) =~= seq![msg]);
                }
                let again = self.map_insert(field_name, ValidationErrorsKind::Field(messages));
                assert(mid.len() == before.len() + 1);
                assert(mid[before.len() as int].0 == field_name@);
                assert(again is Some);
                let ghost j = choose|i: int|
                    0 <= i < mid.len() && mid[i].0 == field_name@ && self@ == #[trigger] mid.update(
                        i,
                        (field_name@, new_kind),
                    );
                proof {
                    if j < before.len() {
                        assert(mid[j] == before[j]);
                        assert(key_present(before, field_name@));
                    }
                }
                assert(self@ =~= before.push((field_name@, ErrorKindView::Field(seq![msg]))));
            },
            Some(ValidationErrorsKind::Field(mut messages)) => {
                let ghost mid = self@;
                let ghost i = choose|i: int|
                    0 <= i < before.len() && before[i].0 == field_name@ && ValidationErrorsKind::Field(
                        messages,
                    )@ == before[i].1 && mid == #[trigger] before.update(i, (field_name@, pv));
                assert(key_present(before, field_name@));
                let ghost k = key_index(before, field_name@);
                assert(k == i) by {
                    if k != i {
                        assert(before[k].0 == before[i].0);
                    }
                }
                let ghost old_msgs = messages@.map_values(|e: ValidationError| e@);
                messages.push(validation_error);
                let ghost new_kind = ValidationErrorsKind::Field(messages)@;
                assert(new_kind == ErrorKindView::Field(old_msgs.push(msg))) by {
                    assert(messages@.map_values(|e: ValidationError| e@) =~= old_msgs.push(msg));
                }
                assert(mid[i].0 == field_name@);
                let again = self.map_insert(field_name, ValidationErrorsKind::Field(messages));
                assert(again is Some);
                let ghost j = choose|j: int|
                    0 <= j < mid.len() && mid[j].0 == field_name@ && self@ == #[trigger] mid.update(
                        j,
                        (field_name@, new_kind),
                    );
                assert(j == i) by {
                    if j != i {
                        assert(before[j].0 == mid[j].0);
                    }
                }
                assert(self@ =~= before.update(i, (field_name@, ErrorKindView::Field(old_msgs.push(msg)))));
            },
            Some(other) => {
                proof {
                    let i = choose|i: int|
                        0 <= i < before.len() && before[i].0 == field_name@ && other@ == before[i].1
                            && self@ == #[trigger] before.update(i, (field_name@, pv));
                    assert(before[i].1 is Field);
                }
            },
        }
    }
    /// Lifts a failing field check into `parent`.
    pub fn merge_field(
        parent: ValidationResult,
        field_name: &str,
        validation_error: ValidationError,
    ) -> (r: ValidationResult)
        requires
            parent.wf(),
            field_slot_open(parent.tree(), field_name@),
        ensures
            r.wf(),
            r is Error,
            r.tree() == with_field_error(parent.tree(), field_name@, validation_error@),
    {
        let mut errors = parent.into_errors();
        errors.add_field(field_name, validation_error);
        ValidationResult::Error(errors)
    }

    /// Lifts a failing enum check into `parent`.
    pub fn merge_enum(
        parent: ValidationResult,
        enum_name: &str,
        validation_error: ValidationError,
    ) -> (r: ValidationResult)
        requires
            parent.wf(),
            !key_present(parent.tree(), enum_name@),
        ensures
            r.wf(),
            r is Error,
            r.tree() == parent.tree().push((enum_name@, ErrorKindView::Enum(validation_error@))),
    {
        let mut errors = parent.into_errors();
        errors.add_enum(enum_name, validation_error);
        ValidationResult::Error(errors)
    }

    /// Lifts the outcome of a nested object into `parent`: a passing child
    /// leaves it unchanged, a failing one adds its whole tree as a struct
    /// entry.
    pub fn merge_struct(
        parent: ValidationResult,
        struct_name: &str,
        child: ValidationResult,
    ) -> (r: ValidationResult)
        requires
            parent.wf(),
            child.wf(),
            child is Error ==> !key_present(parent.tree(), struct_name@),
        ensures
            r.wf(),
            child is Passed ==> r == parent,
            child is Error ==> r is Error && r.tree() == parent.tree().push(
                (struct_name@, ErrorKindView::Struct(child->Error_0)),
            ),
    {
        match child {
            ValidationResult::Passed => parent,
            ValidationResult::Error(child_errors) => {
                let mut errors = parent.into_errors();
                errors.add_nested(struct_name, ValidationErrorsKind::Struct(child_errors));
                ValidationResult::Error(errors)
            },
        }
    }

    /// Lifts the outcomes of a list's elements into `parent`: the failing
    /// ones are kept under their own positions; if none failed,
    /// `parent` is unchanged.
    pub fn merge_list(
        parent: ValidationResult,
        field_name: &str,
        children: Vec<ValidationResult>,
    ) -> (r: ValidationResult)
        requires
            parent.wf(),
            all_wf(children@),
            has_failure(children@) ==> !key_present(parent.tree(), field_name@),
        ensures
            r.wf(),
            !has_failure(children@) ==> r == parent,
            has_failure(children@) ==> r is Error && r.tree() == parent.tree().push(
                (field_name@, ErrorKindView::List(failures(children@))),
            ),
    {
        broadcast use vstd::laws_cmp::group_laws_cmp;

        let ghost all = children@;
        let mut rest = children;
        let mut child_errors: BTreeMap<usize, ValidationErrors> = BTreeMap::new();
        let mut any_failed = false;
        let total = rest.len();
        while rest.len() > 0
            invariant
                all_wf(all),
                rest@.len() <= all.len() == total,
                rest@ == all.subrange(0, rest@.len() as int),
                any_failed <==> exists|i: int|
                    rest@.len() <= i < all.len() && (#[trigger] all[i]) is Error,
                forall|i: usize| #[trigger]
                    child_errors@.contains_key(i) <==> (rest@.len() <= i < all.len()
                        && all[i as int] is Error),
                forall|i: usize| #[trigger]
                    child_errors@.contains_key(i) ==> child_errors@[i] == all[i as int]->Error_0,
            decreases rest.len(),
        {
            let index = rest.len() - 1;
            let last = rest.pop().unwrap();
            assert(last == all[index as int]);
            match last {
                ValidationResult::Passed => {},
                ValidationResult::Error(errors) => {
                    child_errors.insert(index, errors);
                    any_failed = true;
                },
            }
        }
        assert(child_errors@ =~= failures(all));
        if !any_failed {
            parent
        } else {
            let ghost fails = child_errors@;
            assert(trees_nonempty(fails)) by {
                let i = choose|i: int| 0 <= i < all.len() && (#[trigger] all[i]) is Error;
                assert(fails.contains_key(i as usize));
                assert forall|k: usize| #[trigger] fails.contains_key(k) implies fails[k]@.len() > 0 by {
                    assert(all[k as int].wf());
                }
            }
            let mut errors = parent.into_errors();
            errors.add_nested(field_name, ValidationErrorsKind::List(child_errors));
            ValidationResult::Error(errors)
        }
    }
}

/// How a field check moved a node's result from `before` to `after`.
pub open spec fn field_outcome(
    before: ValidationResult,
    after: ValidationResult,
    name: Seq<char>,
    out: Result<(), ValidationError>,
) -> bool {
    match out {
        Ok(_) => after == before,
        Err(e) => after is Error && after.tree() == with_field_error(before.tree(), name, e@),
    }
}

/// How an enum check moved a node's result from `before` to `after`.
pub open spec fn enum_outcome(
    before: ValidationResult,
    after: ValidationResult,
    name: Seq<char>,
    out: Result<(), ValidationError>,
) -> bool {
    match out {
        Ok(_) => after == before,
        Err(e) => after is Error && after.tree() == before.tree().push(
            (name, ErrorKindView::Enum(e@)),
        ),
    }
}

/// How a nested object's outcome moved a node's result from `before` to
/// `after`.
pub open spec fn struct_outcome(
    before: ValidationResult,
    after: ValidationResult,
    name: Seq<char>,
    out: ValidationResult,
) -> bool {
    match out {
        ValidationResult::Passed => after == before,
        ValidationResult::Error(e) => after is Error && after.tree() == before.tree().push(
            (name, ErrorKindView::Struct(e)),
        ),
    }
}

/// How the outcomes of a list's elements moved a node's result from
/// `before` to `after`.
pub open spec fn list_outcome(
    before: ValidationResult,
    after: ValidationResult,
    name: Seq<char>,
    outs: Seq<ValidationResult>,
) -> bool {
    &&& !has_failure(outs) ==> after == before
    &&& has_failure(outs) ==> after is Error && after.tree() == before.tree().push(
        (name, ErrorKindView::List(failures(outs))),
    )
}

/// `outs` holds, position by position, an outcome that `validation` may
/// give for each element of `list`.
pub open spec fn checked_each<I, F: Fn(&I) -> ValidationResult>(
    validation: F,
    list: Seq<I>,
    outs: Seq<ValidationResult>,
) -> bool {
    &&& outs.len() == list.len()
    &&& forall|i: int| 0 <= i < list.len() ==> validation.ensures((&list[i],), #[trigger] outs[i])
}

/// Threads an accumulating result through the checks of one document node.
/// The result can only be taken out once all checks are added.
pub struct ValidationContext {
    state: ValidationResult,
}

impl View for ValidationContext {
    type V = ValidationResult;

    closed spec fn view(&self) -> ValidationResult {
        self.state
    }
}

impl ValidationContext {
    pub fn new() -> (r: ValidationContext)
        ensures
            r@ is Passed,
    {
        ValidationContext { state: ValidationResult::Passed }
    }

    /// Checks a field that is present with `validation`; an absent field is
    /// not checked.
    pub fn add_field<T, F: FnOnce(T) -> Result<(), ValidationError>>(
        self,
        field_name: &str,
        field: Option<T>,
        validation: F,
    ) -> (r: ValidationContext)
        requires
            self@.wf(),
            field matches Some(v) ==> validation.requires((v,)),
            field matches Some(v) ==> forall|out: Result<(), ValidationError>|
                #[trigger] validation.ensures((v,), out) && out is Err ==> field_slot_open(
                    self@.tree(),
                    field_name@,
                ),
        ensures
            r@.wf(),
            field is None ==> r@ == self@,
            field matches Some(v) ==> exists|out: Result<(), ValidationError>|
                #[trigger] validation.ensures((v,), out) && field_outcome(
                    self@,
                    r@,
                    field_name@,
                    out,
                ),
    {
        match field {
            None => self,
            Some(value) => match validation(value) {
                Ok(()) => self,
                Err(error) => ValidationContext {
                    state: ValidationErrors::merge_field(self.state, field_name, error),
                },
            },
        }
    }

    /// Checks an enum field that is present with `validation`; an absent
    /// field is not checked.
    pub fn add_enum<T, F: FnOnce(T) -> Result<(), ValidationError>>(
        self,
        enum_name: &str,
        value: Option<T>,
        validation: F,
    ) -> (r: ValidationContext)
        requires
            self@.wf(),
            value matches Some(v) ==> validation.requires((v,)),
            value matches Some(v) ==> forall|out: Result<(), ValidationError>|
                #[trigger] validation.ensures((v,), out) && out is Err ==> !key_present(
                    self@.tree(),
                    enum_name@,
                ),
        ensures
            r@.wf(),
            value is None ==> r@ == self@,
            value matches Some(v) ==> exists|out: Result<(), ValidationError>|
                #[trigger] validation.ensures((v,), out) && enum_outcome(
                    self@,
                    r@,
                    enum_name@,
                    out,
                ),
    {
        match value {
            None => self,
            Some(v) => match validation(v) {
                Ok(()) => self,
                Err(error) => ValidationContext {
                    state: ValidationErrors::merge_enum(self.state, enum_name, error),
                },
            },
        }
    }

    /// Validates a nested object that is present with `validation`, and
    /// keeps its tree under `struct_name` if it failed.
    pub fn add_struct<T, F: FnOnce(T) -> ValidationResult>(
        self,
        struct_name: &str,
        value: Option<T>,
        validation: F,
    ) -> (r: ValidationContext)
        requires
            self@.wf(),
            value matches Some(v) ==> validation.requires((v,)),
            value matches Some(v) ==> forall|out: ValidationResult|
                #[trigger] validation.ensures((v,), out) && out is Error ==> !key_present(
                    self@.tree(),
                    struct_name@,
                ),
            forall|v: T, out: ValidationResult| #[trigger]
                validation.ensures((v,), out) ==> out.wf(),
        ensures
            r@.wf(),
            value is None ==> r@ == self@,
            value matches Some(v) ==> exists|out: ValidationResult|
                #[trigger] validation.ensures((v,), out) && struct_outcome(
                    self@,
                    r@,
                    struct_name@,
                    out,
                ),
    {
        match value {
            None => self,
            Some(v) => {
                let child = validation(v);
                ValidationContext {
                    state: ValidationErrors::merge_struct(self.state, struct_name, child),
                }
            },
        }
    }

    /// Validates every element of `list`, none skipped, and keeps the trees
    /// of the failing ones under `list_name`, by position.
    pub fn add_list<I, F: Fn(&I) -> ValidationResult>(
        self,
        list_name: &str,
        list: &Vec<I>,
        validation: F,
    ) -> (r: ValidationContext)
        requires
            self@.wf(),
            forall|i: int| 0 <= i < list@.len() ==> validation.requires((&list@[i],)),
            (exists|i: int, out: ValidationResult|
                0 <= i < list@.len() && #[trigger] validation.ensures((&list@[i],), out)
                    && out is Error) ==> !key_present(self@.tree(), list_name@),
            forall|v: &I, out: ValidationResult| #[trigger]
                validation.ensures((v,), out) ==> out.wf(),
        ensures
            r@.wf(),
            exists|outs: Seq<ValidationResult>|
                #[trigger] checked_each(validation, list@, outs) && list_outcome(
                    self@,
                    r@,
                    list_name@,
                    outs,
                ),
    {
        let mut children: Vec<ValidationResult> = Vec::new();
        let mut index: usize = 0;
        while index < list.len()
            invariant
                index <= list@.len(),
                children@.len() == index,
                forall|i: int| 0 <= i < list@.len() ==> validation.requires((&list@[i],)),
                forall|v: &I, out: ValidationResult| #[trigger]
                    validation.ensures((v,), out) ==> out.wf(),
                forall|i: int|
                    0 <= i < index ==> validation.ensures((&list@[i],), #[trigger] children@[i]),
            decreases list@.len() - index,
        {
            let outcome = validation(&list[index]);
            children.push(outcome);
            index = index + 1;
        }
        let ghost outs = children@;
        assert(checked_each(validation, list@, outs));
        assert(all_wf(outs));
        proof {
            if has_failure(outs) {
                let i = choose|i: int| 0 <= i < outs.len() && (#[trigger] outs[i]) is Error;
                assert(validation.ensures((&list@[i],), outs[i]));
            }
        }
        ValidationContext { state: ValidationErrors::merge_list(self.state, list_name, children) }
    }

    /// The accumulated result.
    pub fn finish(self) -> (r: ValidationResult)
        ensures
            r == self@,
    {
        self.state
    }
}

impl From<ValidationContext> for ValidationResult {
    fn from(builder: ValidationContext) -> (r: ValidationResult) {
        builder.finish()
    }
}

impl vstd::std_specs::convert::FromSpecImpl<ValidationContext> for ValidationResult {
    open spec fn obeys_from_spec() -> bool {
        true
    }

    open spec fn from_spec(builder: ValidationContext) -> ValidationResult {
        builder@
    }
}

/// A document node that can be checked against a format version.
pub trait Validate {
    fn validate(&self, version: SpecVersion) -> (r: ValidationResult)
        ensures
            r.wf(),
    ;
}

/// A well-formed outcome is `Passed` exactly when its error tree is empty,
/// so a passed node and a node with an empty tree cannot be told apart.
pub proof fn lemma_passed_is_empty(r: ValidationResult)
    requires
        r.wf(),
    ensures
        r is Passed <==> r.tree().len() == 0,
{
}

/// When the element at `i` is the only failing one, the list entry holds
/// exactly that position with that element's tree, whatever the length.
pub proof fn lemma_list_single_failure(children: Seq<ValidationResult>, i: int)
    requires
        0 <= i < children.len() <= usize::MAX,
        children[i] is Error,
        forall|j: int| 0 <= j < children.len() && j != i ==> (#[trigger] children[j]) is Passed,
    ensures
        has_failure(children),
        failures(children) == Map::<usize, ValidationErrors>::empty().insert(
            i as usize,
            children[i]->Error_0,
        ),
{
    assert(failures(children) =~= Map::<usize, ValidationErrors>::empty().insert(
        i as usize,
        children[i]->Error_0,
    ));
}

/// Every failing element of a list is kept, each under its own position
/// with its own tree: a failure never hides a later one.
pub proof fn lemma_list_keeps_all_failures(children: Seq<ValidationResult>, i: int, j: int)
    requires
        0 <= i < j < children.len() <= usize::MAX,
        children[i] is Error,
        children[j] is Error,
    ensures
        has_failure(children),
        failures(children).contains_key(i as usize),
        failures(children)[i as usize] == children[i]->Error_0,
        failures(children).contains_key(j as usize),
        failures(children)[j as usize] == children[j]->Error_0,
{
}

/// One builder call from `before` to `after`: the result stays well formed,
/// is unchanged when the call found nothing, and has failed when it did.
pub open spec fn accumulates(before: ValidationResult, after: ValidationResult, failed: bool) -> bool {
    &&& after.wf()
    &&& !failed ==> after == before
    &&& failed ==> after is Error
}

/// Each builder call is such a step: one that leaves the context as it was
/// (an absent value) found nothing, and the outcomes that `add_field`,
/// `add_enum`, `add_struct` and `add_list` promise fail exactly when the
/// check, the child or some element failed.
pub proof fn lemma_builder_steps(
    before: ValidationResult,
    after: ValidationResult,
    name: Seq<char>,
    check: Result<(), ValidationError>,
    child: ValidationResult,
    outs: Seq<ValidationResult>,
)
    requires
        after.wf(),
    ensures
        after == before ==> accumulates(before, after, false),
        field_outcome(before, after, name, check) ==> accumulates(before, after, check is Err),
        enum_outcome(before, after, name, check) ==> accumulates(before, after, check is Err),
        struct_outcome(before, after, name, child) ==> accumulates(before, after, child is Error),
        list_outcome(before, after, name, outs) ==> accumulates(before, after, has_failure(outs)),
{
}

/// Over a whole chain of builder calls from a new context, the result is
/// `Passed` exactly when no call failed, and a failed result has a
/// non-empty tree.
pub proof fn lemma_chain_passes_iff_nothing_failed(
    states: Seq<ValidationResult>,
    failed: Seq<bool>,
)
    requires
        states.len() == failed.len() + 1,
        states[0] is Passed,
        forall|i: int|
            0 <= i < failed.len() ==> accumulates(states[i], states[i + 1], #[trigger] failed[i]),
    ensures
        states.last().wf(),
        states.last() is Passed <==> forall|i: int| 0 <= i < failed.len() ==> !failed[i],
        states.last() is Error ==> states.last().tree().len() > 0,
    decreases failed.len(),
{
    if failed.len() > 0 {
        let n = failed.len() - 1;
        let prefix = states.subrange(0, n + 1);
        let flags = failed.subrange(0, n);
        assert forall|i: int| 0 <= i < flags.len() implies accumulates(
            prefix[i],
            prefix[i + 1],
            #[trigger] flags[i],
        ) by {
            assert(failed[i] == flags[i]);
        }
        lemma_chain_passes_iff_nothing_failed(prefix, flags);
        assert(accumulates(states[n], states[n + 1], failed[n]));
        if !failed[n] {
            assert((forall|i: int| 0 <= i < failed.len() ==> !failed[i]) <==> (forall|i: int|
                0 <= i < flags.len() ==> !flags[i])) by {
                if forall|i: int| 0 <= i < flags.len() ==> !flags[i] {
                    assert forall|i: int| 0 <= i < failed.len() implies !failed[i] by {
                        if i < n {
                            assert(flags[i] == failed[i]);
                        }
                    }
                }
                if forall|i: int| 0 <= i < failed.len() ==> !failed[i] {
                    assert forall|i: int| 0 <= i < flags.len() implies !flags[i] by {
                        assert(flags[i] == failed[i]);
                    }
                }
            }
        }
    }
}

/// No tree level ever holds two entries under one name: every operation
/// that builds a tree keeps it well formed, and a well-formed level has
/// unique names.
pub proof fn lemma_names_unique(errors: ValidationErrors, i: int, j: int)
    requires
        errors.wf(),
        0 <= i < j < errors@.len(),
    ensures
        errors@[i].0 != errors@[j].0,
{
}

/// A second field error under a name that holds field errors joins that
/// entry: the tree keeps its length, and the entry keeps its place.
pub proof fn lemma_field_errors_share_entry(
    s: Seq<(Seq<char>, ErrorKindView)>,
    name: Seq<char>,
    msg: Seq<char>,
)
    requires
        entries_wf(s),
        key_present(s, name),
    ensures
        with_field_error(s, name, msg).len() == s.len(),
        with_field_error(s, name, msg)[key_index(s, name)].0 == name,
{
}

} // verus!
