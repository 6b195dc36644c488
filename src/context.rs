use vstd::prelude::*;
use vstd::string::StringExecFns;
use vstd::utf8::encode_utf8;
use vstd::arithmetic::div_mod::{lemma_mod_add_multiples_vanish, lemma_mod_self_0, lemma_small_mod};
use crate::registry::{RegValue, ValueType, views};
use crate::listing::{clone_names, create_subkeys, go_up, is_sorted_position, lemma_sorted_insert, position_of, sorted_from, sorted_position};
use crate::registry::{default_key_names, get_type_choices_vec, root_names, str_eq, str_to_type, type_labels, type_of_label};
use crate::selection::{ScrollableTableState, last_index, next_index, prev_index};
use crate::text::{blank, contains_char, is_blank, lower_of, to_lower, truncate_name};

verus! {

/// Severity of a notice.
#[derive(Debug, Clone, Copy, PartialEq, Eq, Structural)]
pub enum AppMessageType {
    Info,
    Error,
}

/// A notice shown over the panes until it is dismissed.
pub struct AppMessage {
    pub ty: AppMessageType,
    pub message: String,
}

impl AppMessage {
    fn new(ty: AppMessageType, message: &str) -> (r: Self)
        ensures
            r.ty == ty,
            r.message@ == message@,
    {
        AppMessage { ty, message: message.to_owned() }
    }

    pub fn info(message: &str) -> (r: Self)
        ensures
            r.ty == AppMessageType::Info,
            r.message@ == message@,
    {
        Self::new(AppMessageType::Info, message)
    }

    pub fn error(message: &str) -> (r: Self)
        ensures
            r.ty == AppMessageType::Error,
            r.message@ == message@,
    {
        Self::new(AppMessageType::Error, message)
    }
}

/// A fixed, non-empty list of answers and the one currently chosen.
pub struct InputChoices {
    pub items: Vec<String>,
    pub selected: usize,
}

impl InputChoices {
    pub open spec fn wf(&self) -> bool {
        0 < self.items.len() && self.selected < self.items.len()
    }

    pub fn new(items: Vec<String>) -> (r: Self)
        requires
            items.len() > 0,
        ensures
            r.wf(),
            r.items@ == items@,
            r.selected == 0,
    {
        InputChoices { items, selected: 0 }
    }
}

/// What an input session collects: free text, or one of a list of choices.
pub enum InputType {
    TextArea,
    Choice(InputChoices),
}

impl InputType {
    pub fn is_textarea(&self) -> (r: bool)
        ensures
            r == (self is TextArea),
    {
        match self {
            InputType::TextArea => true,
            _ => false,
        }
    }

    pub fn is_choice(&self) -> (r: bool)
        ensures
            r == (self is Choice),
    {
        !self.is_textarea()
    }
}

/// Whether the browser shows the top-level nodes or an opened node.
#[derive(Debug, Clone, Copy, PartialEq, Eq, Structural)]
pub enum KeyViewState {
    Base,
    Subkey,
}

/// The pane that was active before an input or a notice took over.
#[derive(Debug, Clone, Copy, PartialEq, Eq, Structural)]
pub enum LastSelected {
    Keys,
    Values,
    Neither,
}

/// What the user is looking at and what keys act on.
#[derive(Debug, Clone, Copy, PartialEq, Eq, Structural)]
pub enum ViewState {
    Keys,
    Values,
    Input(LastSelected),
    Message(LastSelected),
}

impl ViewState {
    pub fn is_input(&self) -> (r: bool)
        ensures
            r == (self is Input),
    {
        match self {
            ViewState::Input(_) => true,
            _ => false,
        }
    }

    pub fn is_message(&self) -> (r: bool)
        ensures
            r == (self is Message),
    {
        match self {
            ViewState::Message(_) => true,
            _ => false,
        }
    }

    /// An input or a notice remembers a pane to go back to.
    pub open spec fn wf(&self) -> bool {
        match self {
            ViewState::Input(l) => l != LastSelected::Neither,
            ViewState::Message(l) => l != LastSelected::Neither,
            _ => true,
        }
    }
}

/// The pane that a state stands for, if it is one.
pub open spec fn pane_of(v: ViewState) -> LastSelected {
    match v {
        ViewState::Keys => LastSelected::Keys,
        ViewState::Values => LastSelected::Values,
        _ => LastSelected::Neither,
    }
}

/// The state that a remembered pane restores.
pub open spec fn restored(l: LastSelected) -> ViewState {
    match l {
        LastSelected::Values => ViewState::Values,
        _ => ViewState::Keys,
    }
}

fn to_last_selected(v: ViewState) -> (r: LastSelected)
    ensures
        r == pane_of(v),
{
    match v {
        ViewState::Keys => LastSelected::Keys,
        ViewState::Values => LastSelected::Values,
        _ => LastSelected::Neither,
    }
}

fn to_view_state(l: LastSelected) -> (r: ViewState)
    ensures
        r == restored(l),
{
    match l {
        LastSelected::Values => ViewState::Values,
        _ => ViewState::Keys,
    }
}

/// A value under a node, with its name.
#[derive(Debug, Clone)]
pub struct NamedValue {
    pub name: String,
    pub value: RegValue,
}

impl NamedValue {
    pub fn new(name: String, value: RegValue) -> (r: Self)
        ensures
            r.name == name,
            r.value == value,
    {
        NamedValue { name, value }
    }
}

pub open spec fn value_names(v: Seq<NamedValue>) -> Seq<Seq<char>> {
    v.map_values(|n: NamedValue| n@.name@)
}

impl View for NamedValue {
    type V = NamedValue;

    open spec fn view(&self) -> NamedValue {
        *self
    }
}

/// Longest name of a key, in bytes.
pub const KEY_NAME_MAX: usize = 255;

/// Longest name of a value, in bytes.
pub const VALUE_NAME_MAX: usize = 16383;

/// Why a proposed name is refused.
#[derive(Debug, Clone, Copy, PartialEq, Eq, Structural)]
pub enum NameError {
    Empty,
    HasSlash,
    TooLong,
    Exists,
    NotNew,
}

/// Whether a name is given to a key or to a value.
#[derive(Debug, Clone, Copy, PartialEq, Eq, Structural)]
pub enum EntryKind {
    Key,
    Value,
}

/// The length of a name in bytes, as UTF-8 encodes it.
pub open spec fn byte_len(s: Seq<char>) -> nat {
    encode_utf8(s).len()
}

/// The lowercase forms of a list of names.
pub open spec fn lowered(names: Seq<Seq<char>>) -> Seq<Seq<char>> {
    names.map_values(|n: Seq<char>| lower_of(n))
}

/// The verdict on a proposed name, given the lowercase forms of the name, of
/// its siblings and of the names that stay allowed: not blank, no `/`, at
/// most `max` bytes, and not taken by a sibling unless it is allowed.
pub open spec fn folded_name_check(
    input: Seq<char>,
    max: nat,
    input_lower: Seq<char>,
    siblings_lower: Seq<Seq<char>>,
    exclude_lower: Seq<Seq<char>>,
) -> Result<(), NameError> {
    if blank(input) {
        Err(NameError::Empty)
    } else if input.contains('/') {
        Err(NameError::HasSlash)
    } else if byte_len(input) > max {
        Err(NameError::TooLong)
    } else if siblings_lower.contains(input_lower) && !exclude_lower.contains(input_lower) {
        Err(NameError::Exists)
    } else {
        Ok(())
    }
}

/// The verdict on a proposed name among `siblings`, case ignored; names in
/// `exclude` do not count as taken.
pub open spec fn name_check(
    input: Seq<char>,
    max: nat,
    siblings: Seq<Seq<char>>,
    exclude: Seq<Seq<char>>,
) -> Result<(), NameError> {
    folded_name_check(input, max, lower_of(input), lowered(siblings), lowered(exclude))
}

/// The words that explain a refusal.
pub open spec fn name_error_text(e: NameError, kind: EntryKind) -> Seq<char> {
    match (e, kind) {
        (NameError::Empty, _) => "Can't be empty"@,
        (NameError::HasSlash, EntryKind::Key) => "Name of a key can't contain forward slashes"@,
        (NameError::HasSlash, EntryKind::Value) => "Name of a value can't contain forward slashes"@,
        (NameError::TooLong, EntryKind::Key) => "Name of a key can't be longer than 255 characters"@,
        (NameError::TooLong, EntryKind::Value) =>
            "Name of a value can't be longer than 16,383 characters"@,
        (NameError::Exists, EntryKind::Key) => "This key already exists"@,
        (NameError::Exists, EntryKind::Value) => "This value already exists"@,
        (NameError::NotNew, _) => "The name of the key must be new"@,
    }
}

impl NameError {
    /// The explanation shown next to the input.
    pub fn message(&self, kind: EntryKind) -> (r: String)
        ensures
            r@ == name_error_text(*self, kind),
    {
        let s = match (self, kind) {
            (NameError::Empty, _) => "Can't be empty",
            (NameError::HasSlash, EntryKind::Key) => "Name of a key can't contain forward slashes",
            (NameError::HasSlash, EntryKind::Value) =>
                "Name of a value can't contain forward slashes",
            (NameError::TooLong, EntryKind::Key) =>
                "Name of a key can't be longer than 255 characters",
            (NameError::TooLong, EntryKind::Value) =>
                "Name of a value can't be longer than 16,383 characters",
            (NameError::Exists, EntryKind::Key) => "This key already exists",
            (NameError::Exists, EntryKind::Value) => "This value already exists",
            (NameError::NotNew, _) => "The name of the key must be new",
        };
        s.to_owned()
    }
}

/// The lowercase forms of `names`.
fn lower_all(names: &Vec<String>) -> (r: Vec<String>)
    ensures
        views(r@) == lowered(views(names@)),
{
    let mut r: Vec<String> = Vec::new();
    let mut i: usize = 0;
    while i < names.len()
        invariant
            i <= names.len(),
            views(r@) =~= lowered(views(names@)).subrange(0, i as int),
        decreases names.len() - i,
    {
        let ghost prev = r@;
        r.push(to_lower(names[i].as_str()));
        assert(views(r@) =~= views(prev).push(lower_of(names@[i as int]@)));
        i = i + 1;
    }
    assert(lowered(views(names@)).subrange(0, names.len() as int) =~= lowered(views(names@)));
    r
}

/// Whether `name` is one of `names`.
fn contains_name(names: &Vec<String>, name: &str) -> (r: bool)
    ensures
        r == views(names@).contains(name@),
{
    let found = position_of(names, 0, name);
    proof {
        if let Some(p) = found {
            assert(views(names@)[p as int] == name@);
        } else {
            assert forall|j: int| 0 <= j < views(names@).len() implies views(names@)[j]
                != name@ by {
                assert(names@[j]@ != name@);
            }
        }
    }
    found.is_some()
}

/// The names of a list of values.
fn names_of_values(values: &Vec<NamedValue>) -> (r: Vec<String>)
    ensures
        views(r@) == value_names(values@),
{
    let mut r: Vec<String> = Vec::new();
    let mut i: usize = 0;
    while i < values.len()
        invariant
            i <= values.len(),
            views(r@) =~= value_names(values@).subrange(0, i as int),
        decreases values.len() - i,
    {
        let ghost prev = r@;
        r.push(values[i].name.clone());
        assert(views(r@) =~= views(prev).push(values@[i as int].name@));
        i = i + 1;
    }
    assert(value_names(values@).subrange(0, values.len() as int) =~= value_names(values@));
    r
}

/// Checks a proposed name, given the lowercase forms of the name
/// (`input_lower`), of its siblings and of the names that stay allowed.
pub fn check_folded_name(
    input: &str,
    max: usize,
    input_lower: &str,
    siblings_lower: &Vec<String>,
    exclude_lower: &Vec<String>,
) -> (r: Result<(), NameError>)
    ensures
        r == folded_name_check(
            input@,
            max as nat,
            input_lower@,
            views(siblings_lower@),
            views(exclude_lower@),
        ),
{
    if is_blank(input) {
        return Err(NameError::Empty);
    }
    if contains_char(input, '/') {
        return Err(NameError::HasSlash);
    }
    if input.as_bytes().len() > max {
        return Err(NameError::TooLong);
    }
    if contains_name(siblings_lower, input_lower) && !contains_name(exclude_lower, input_lower) {
        return Err(NameError::Exists);
    }
    Ok(())
}

fn check_name(input: &str, max: usize, siblings: &Vec<String>, exclude: &Vec<String>) -> (r: Result<
    (),
    NameError,
>)
    ensures
        r == name_check(input@, max as nat, views(siblings@), views(exclude@)),
{
    let input_lower = to_lower(input);
    let siblings_lower = lower_all(siblings);
    let exclude_lower = lower_all(exclude);
    check_folded_name(input, max, input_lower.as_str(), &siblings_lower, &exclude_lower)
}

/// Checks a proposed key name against its siblings; names in `exclude_keys`
/// do not count as taken.
pub fn key_name_validator(input: &str, subkeys: &Vec<String>, exclude_keys: &Vec<String>) -> (r:
    Result<(), NameError>)
    ensures
        r == name_check(input@, KEY_NAME_MAX as nat, views(subkeys@), views(exclude_keys@)),
{
    check_name(input, KEY_NAME_MAX, subkeys, exclude_keys)
}

/// Checks a proposed value name against the names of the values beside it;
/// names in `exclude_values` do not count as taken.
pub fn value_name_validator(
    input: &str,
    values: &Vec<NamedValue>,
    exclude_values: &Vec<NamedValue>,
) -> (r: Result<(), NameError>)
    ensures
        r == name_check(
            input@,
            VALUE_NAME_MAX as nat,
            value_names(values@),
            value_names(exclude_values@),
        ),
{
    let names = names_of_values(values);
    let exclude = names_of_values(exclude_values);
    check_name(input, VALUE_NAME_MAX, &names, &exclude)
}


/// A key to add to the listing of the node on top of the stack.
pub struct ActionAddSubkey {
    pub name: String,
}

/// A key of that listing that now has another name.
pub struct ActionRenameSubkey {
    pub original: String,
    pub new: String,
}

/// A key to take out of that listing.
pub struct ActionDeleteSubkey {
    pub name: String,
}

/// A new value whose name is known and whose kind is asked next.
pub struct StageNewValueType {
    pub name: String,
}

/// A new value whose name and kind are known and whose data is asked next.
pub struct StageNewValueData {
    pub name: String,
    pub ty: ValueType,
}

/// What a command that needs more input has collected so far.
pub enum InputStageType {
    NewValueType(StageNewValueType),
    NewValueData(StageNewValueData),
}

/// Ask for the next input of a staged command.
pub struct ActionStage {
    pub ty: InputStageType,
}

/// What to change in the session once a confirmed command has been carried out.
pub enum PostAction {
    AddSubkey(ActionAddSubkey),
    RenameSubkey(ActionRenameSubkey),
    DeleteSubkey(ActionDeleteSubkey),
    Stage(ActionStage),
    Nothing,
}

/// A change to the store that a confirmed command needs, made under the node
/// on top of the stack.
pub enum StoreRequest {
    CreateKey { name: String },
    RenameKey { original: String, new: String },
    DeleteKey { name: String },
}

/// A node to open for the selected entry of the browser.
pub enum OpenRequest {
    /// The top-level node at this index of the root listing.
    Root { index: usize, name: String },
    /// The child of this name under the node on top of the stack.
    Child { name: String },
}

/// The check that an input session runs on its text.
pub enum InputValidator {
    /// A new key beside these siblings.
    KeyName { siblings: Vec<String> },
    /// A new name for the key `current` among these siblings.
    NewKeyName { siblings: Vec<String>, current: String },
    /// A new value beside values of these names.
    ValueName { names: Vec<String> },
    /// Anything goes.
    AnyText,
}

/// What confirming an input session does with its text.
pub enum InputConfirm {
    /// Create a key of that name.
    NewKey,
    /// Take the text as the name of a new value, then ask for its kind.
    NewValue,
    /// Give the key `original` the text as its name.
    RenameKey { original: String },
    /// Delete the key `name`, unless the answer is "No".
    DeleteKey { name: String },
    /// Go on with a staged command.
    Stage(InputStageType),
}

/// The verdict of a validator on a text.
pub open spec fn validation(v: InputValidator, input: Seq<char>) -> Result<(), NameError> {
    match v {
        InputValidator::KeyName { siblings } => name_check(
            input,
            KEY_NAME_MAX as nat,
            views(siblings@),
            Seq::empty(),
        ),
        InputValidator::NewKeyName { siblings, current } => if input == current@ {
            Err(NameError::NotNew)
        } else {
            name_check(input, KEY_NAME_MAX as nat, views(siblings@), seq![current@])
        },
        InputValidator::ValueName { names } => name_check(
            input,
            VALUE_NAME_MAX as nat,
            views(names@),
            Seq::empty(),
        ),
        InputValidator::AnyText => Ok(()),
    }
}

/// Whether a validator judges key names or value names.
pub open spec fn validator_kind(v: InputValidator) -> EntryKind {
    match v {
        InputValidator::ValueName { .. } => EntryKind::Value,
        _ => EntryKind::Key,
    }
}

fn run_validator(v: &InputValidator, input: &str) -> (r: Result<(), NameError>)
    ensures
        r == validation(*v, input@),
{
    match v {
        InputValidator::KeyName { siblings } => {
            let exclude: Vec<String> = Vec::new();
            proof {
                assert(views(exclude@) =~= Seq::empty());
            }
            key_name_validator(input, siblings, &exclude)
        },
        InputValidator::NewKeyName { siblings, current } => {
            if crate::registry::str_eq(input, current.as_str()) {
                return Err(NameError::NotNew);
            }
            let mut exclude: Vec<String> = Vec::new();
            exclude.push(current.clone());
            proof {
                assert(views(exclude@) =~= seq![current@]);
            }
            key_name_validator(input, siblings, &exclude)
        },
        InputValidator::ValueName { names } => {
            let exclude: Vec<String> = Vec::new();
            proof {
                assert(views(exclude@) =~= Seq::empty());
            }
            check_name(input, VALUE_NAME_MAX, names, &exclude)
        },
        InputValidator::AnyText => Ok(()),
    }
}

fn validator_entry_kind(v: &InputValidator) -> (r: EntryKind)
    ensures
        r == validator_kind(*v),
{
    match v {
        InputValidator::ValueName { .. } => EntryKind::Value,
        _ => EntryKind::Key,
    }
}

/// The pending request for input: what it asks, what has been typed or
/// chosen, how it is checked and what confirming it does.
pub struct InputState {
    pub label: String,
    pub buffer: String,
    pub validate_fn: Option<InputValidator>,
    pub confirm_fn: Option<InputConfirm>,
    pub ty: InputType,
}

/// The text that confirming a session hands on: the typed text, or the chosen answer.
pub open spec fn confirmed_text(input: InputState) -> Seq<char> {
    match input.ty {
        InputType::TextArea => input.buffer@,
        InputType::Choice(c) => c.items@[c.selected as int]@,
    }
}

/// The session's text passes its validator, or it has none.
pub open spec fn input_accepted(input: InputState) -> bool {
    match input.validate_fn {
        Some(v) => validation(v, input.buffer@) is Ok,
        None => true,
    }
}

impl InputState {
    pub open spec fn wf(&self) -> bool {
        match self.ty {
            InputType::Choice(c) => c.wf(),
            InputType::TextArea => true,
        }
    }

    fn new() -> (r: Self)
        ensures
            r.wf(),
            r.validate_fn is None,
            r.confirm_fn is None,
            r.ty is TextArea,
            r.buffer@ == Seq::<char>::empty(),
    {
        InputState {
            label: "No Input Required".to_owned(),
            buffer: String::new(),
            validate_fn: None,
            confirm_fn: None,
            ty: InputType::TextArea,
        }
    }

    /// The typed text.
    pub fn text(&self) -> (r: String)
        ensures
            r@ == self.buffer@,
    {
        self.buffer.clone()
    }

    /// The validator's verdict on the typed text, with the reason of a refusal;
    /// `None` where the session has no validator.
    pub fn validate(&self) -> (r: Option<Result<(), String>>)
        ensures
            match self.validate_fn {
                None => r is None,
                Some(v) => match validation(v, self.buffer@) {
                    Ok(_) => r == Some(Ok::<(), String>(())),
                    Err(e) => r is Some && r->0 is Err && r->0->Err_0@ == name_error_text(
                        e,
                        validator_kind(v),
                    ),
                },
            },
    {
        match &self.validate_fn {
            None => None,
            Some(v) => match run_validator(v, self.buffer.as_str()) {
                Ok(()) => Some(Ok(())),
                Err(e) => Some(Err(e.message(validator_entry_kind(v)))),
            },
        }
    }

    fn accepted(&self) -> (r: bool)
        ensures
            r == input_accepted(*self),
    {
        match &self.validate_fn {
            None => true,
            Some(v) => run_validator(v, self.buffer.as_str()).is_ok(),
        }
    }
}

/// The values memoized for one child of an opened node.
pub struct CachedValues {
    pub name: String,
    pub values: Vec<NamedValue>,
}

/// The values memoized for the child `name`: the entry added last for it.
pub open spec fn lookup(entries: Seq<CachedValues>, name: Seq<char>) -> Option<Seq<NamedValue>>
    decreases entries.len(),
{
    if entries.len() == 0 {
        None
    } else if entries.last().name@ == name {
        Some(entries.last().values@)
    } else {
        lookup(entries.drop_last(), name)
    }
}

fn find_cached(entries: &Vec<CachedValues>, name: &str) -> (r: Option<usize>)
    ensures
        match r {
            Some(i) => i < entries.len() && lookup(entries@, name@) == Some(
                entries@[i as int].values@,
            ),
            None => lookup(entries@, name@) is None,
        },
{
    let mut i: usize = entries.len();
    assert(entries@.subrange(0, i as int) =~= entries@);
    while i > 0
        invariant
            i <= entries.len(),
            lookup(entries@, name@) == lookup(entries@.subrange(0, i as int), name@),
        decreases i,
    {
        let ghost prefix = entries@.subrange(0, i as int);
        assert(prefix.drop_last() =~= entries@.subrange(0, i - 1));
        if crate::registry::str_eq(entries[i - 1].name.as_str(), name) {
            return Some(i - 1);
        }
        i = i - 1;
    }
    None
}

/// One opened node: its handle, its listing, where it lies, and the values
/// of those of its children that have been looked at.
pub struct KeyState<H> {
    pub key: H,
    pub subkeys: Vec<String>,
    pub cached_path: String,
    pub cached_values: Vec<CachedValues>,
}

/// The path of a child, `parent -> name`.
pub open spec fn child_path(parent: Seq<char>, name: Seq<char>) -> Seq<char> {
    parent + " -> "@ + name
}

impl<H> KeyState<H> {
    fn new(key: H, name: String, subkeys: Vec<String>, last_path: &str) -> (r: Self)
        ensures
            r.key == key,
            r.subkeys@ == subkeys@,
            r.cached_path@ == child_path(last_path@, name@),
            r.cached_values@.len() == 0,
    {
        let path = last_path.to_owned().concat(" -> ").concat(name.as_str());
        proof {
            reveal_strlit(" -> ");
        }
        KeyState { key, subkeys, cached_path: path, cached_values: Vec::new() }
    }

    pub open spec fn wf(&self) -> bool {
        self.subkeys@.len() >= 1 && self.subkeys@[0]@ == go_up()
    }
}


/// The session controller: where the user is in the tree, what has been
/// looked up, which pane or prompt is active, and the command in progress.
pub struct AppContext<H> {
    pub key_table: ScrollableTableState,
    pub value_table: ScrollableTableState,
    pub input: InputState,
    pub message: Option<AppMessage>,
    pub view_state: ViewState,
    pub base_subkeys: Vec<String>,
    pub base_path: String,
    pub key_states: Vec<KeyState<H>>,
}

/// The number of values of an optional list, 0 where there is none.
pub open spec fn len_or_zero(v: Option<Seq<NamedValue>>) -> nat {
    match v {
        Some(s) => s.len(),
        None => 0,
    }
}

impl<H> AppContext<H> {
    /// The opened nodes, outermost first.
    pub open spec fn frames(&self) -> Seq<KeyState<H>> {
        self.key_states@
    }

    pub open spec fn depth(&self) -> nat {
        self.key_states@.len()
    }

    /// The label of the root listing.
    pub open spec fn root_label(&self) -> Seq<char> {
        self.base_path@
    }

    /// The names of the top-level nodes.
    pub open spec fn root_children(&self) -> Seq<Seq<char>> {
        views(self.base_subkeys@)
    }

    /// The listing shown in the children pane.
    pub open spec fn children(&self) -> Seq<Seq<char>> {
        if self.key_states@.len() == 0 {
            views(self.base_subkeys@)
        } else {
            views(self.key_states@.last().subkeys@)
        }
    }

    /// The breadcrumb of the current listing.
    pub open spec fn path(&self) -> Seq<char> {
        if self.key_states@.len() == 0 {
            self.base_path@
        } else {
            self.key_states@.last().cached_path@
        }
    }

    /// The child under the cursor of the children pane, below the root listing.
    pub open spec fn selected_child(&self) -> Option<Seq<char>> {
        if self.key_states@.len() > 0 && self.key_table.selected < self.children().len() {
            Some(self.children()[self.key_table.selected as int])
        } else {
            None
        }
    }

    /// The values memoized for a child of the node on top of the stack.
    pub open spec fn cached(&self, name: Seq<char>) -> Option<Seq<NamedValue>> {
        if self.key_states@.len() == 0 {
            None
        } else {
            lookup(self.key_states@.last().cached_values@, name)
        }
    }

    /// The selected child's values are not memoized yet, so the store must be asked.
    pub open spec fn needs_fetch(&self) -> bool {
        match self.selected_child() {
            Some(n) => self.cached(n) is None,
            None => false,
        }
    }

    /// The values shown in the values pane: those memoized for the selected child.
    pub open spec fn values(&self) -> Option<Seq<NamedValue>> {
        match self.selected_child() {
            Some(n) => self.cached(n),
            None => None,
        }
    }

    pub open spec fn wf(&self) -> bool {
        &&& self.view_state.wf()
        &&& self.input.wf()
        &&& self.key_table.wf()
        &&& self.value_table.wf()
        &&& self.key_table.content_length == self.children().len()
        &&& self.value_table.content_length == len_or_zero(self.values())
        &&& self.base_subkeys@.len() > 0
        &&& forall|i: int| 0 <= i < self.key_states@.len() ==> (#[trigger] self.key_states@[i]).wf()
    }

    pub fn new() -> (r: Self)
        ensures
            r.wf(),
            r.depth() == 0,
            r.children() == root_names(),
            r.path() == "Computer"@,
            r.view_state == ViewState::Keys,
            r.key_table.selected == 0,
            r.message is None,
            r.input.confirm_fn is None,
    {
        let base_subkeys = default_key_names();
        let n = base_subkeys.len();
        let r = AppContext {
            key_table: ScrollableTableState::new(n),
            value_table: ScrollableTableState::new(0),
            input: InputState::new(),
            message: None,
            view_state: ViewState::Keys,
            base_subkeys,
            base_path: "Computer".to_owned(),
            key_states: Vec::new(),
        };
        assert(views(r.base_subkeys@).len() == 5);
        r
    }

    /// The cursor state of a pane; none for a prompt or a notice.
    pub fn get_table_by_view(&self, view: ViewState) -> (r: Option<&ScrollableTableState>)
        ensures
            match view {
                ViewState::Keys => r == Some(&self.key_table),
                ViewState::Values => r == Some(&self.value_table),
                _ => r is None,
            },
    {
        match view {
            ViewState::Keys => Some(&self.key_table),
            ViewState::Values => Some(&self.value_table),
            _ => None,
        }
    }

    /// The cursor state of the active pane.
    pub fn get_selected_table(&self) -> (r: Option<&ScrollableTableState>)
        ensures
            match self.view_state {
                ViewState::Keys => r == Some(&self.key_table),
                ViewState::Values => r == Some(&self.value_table),
                _ => r is None,
            },
    {
        self.get_table_by_view(self.view_state)
    }

    /// Moves between the children pane and the values pane.
    pub fn swap_viewing_table(&mut self)
        requires
            old(self).wf(),
        ensures
            final(self).wf(),
            final(self).view_state == match old(self).view_state {
                ViewState::Keys => ViewState::Values,
                ViewState::Values => ViewState::Keys,
                v => v,
            },
            final(self).frames() == old(self).frames(),
            final(self).key_table == old(self).key_table,
            final(self).value_table == old(self).value_table,
            final(self).input == old(self).input,
            final(self).message == old(self).message,
    {
        self.view_state = match self.view_state {
            ViewState::Keys => ViewState::Values,
            ViewState::Values => ViewState::Keys,
            v => v,
        };
    }

    /// Sizes the values pane to the values of the selected child.
    fn update_values(&mut self)
        requires
            old(self).view_state.wf(),
            old(self).input.wf(),
            old(self).key_table.wf(),
            old(self).key_table.content_length == old(self).children().len(),
            old(self).base_subkeys@.len() > 0,
            forall|i: int|
                0 <= i < old(self).key_states@.len() ==> (#[trigger] old(self).key_states@[i]).wf(),
        ensures
            final(self).wf(),
            final(self).key_states == old(self).key_states,
            final(self).base_subkeys == old(self).base_subkeys,
            final(self).base_path == old(self).base_path,
            final(self).key_table == old(self).key_table,
            final(self).view_state == old(self).view_state,
            final(self).input == old(self).input,
            final(self).message == old(self).message,
            final(self).value_table.content_length == len_or_zero(old(self).values()),
            final(self).value_table.selected == 0,
    {
        let n = self.key_states.len();
        if n == 0 {
            self.value_table.resize(0);
            return;
        }
        let i = self.key_table.selected;
        let len = {
            let state = &self.key_states[n - 1];
            if i < state.subkeys.len() {
                match find_cached(&state.cached_values, state.subkeys[i].as_str()) {
                    Some(j) => state.cached_values[j].values.len(),
                    None => 0,
                }
            } else {
                0
            }
        };
        self.value_table.resize(len);
    }

    /// The values shown in the values pane; none where the selected child's
    /// values are not known or the root listing is shown.
    pub fn get_values(&self) -> (r: Option<&Vec<NamedValue>>)
        ensures
            match r {
                Some(v) => self.values() == Some(v@),
                None => self.values() is None,
            },
    {
        let n = self.key_states.len();
        if n == 0 {
            return None;
        }
        let i = self.key_table.selected;
        let state = &self.key_states[n - 1];
        if i >= state.subkeys.len() {
            return None;
        }
        match find_cached(&state.cached_values, state.subkeys[i].as_str()) {
            Some(j) => Some(&state.cached_values[j].values),
            None => None,
        }
    }

    /// The child whose values the store must be asked for: the selected one,
    /// where its values are not memoized yet.
    pub fn values_to_fetch(&self) -> (r: Option<String>)
        ensures
            r is Some == self.needs_fetch(),
            r is Some ==> self.selected_child() == Some(r->0@),
    {
        let n = self.key_states.len();
        if n == 0 {
            return None;
        }
        let i = self.key_table.selected;
        let state = &self.key_states[n - 1];
        if i >= state.subkeys.len() {
            return None;
        }
        match find_cached(&state.cached_values, state.subkeys[i].as_str()) {
            Some(_) => None,
            None => Some(state.subkeys[i].clone()),
        }
    }

    /// Memoizes what the store gave for the values of the child `name` of the
    /// node on top of the stack; a failed lookup counts as no values. A child
    /// whose values are already memoized keeps them.
    pub fn store_values(&mut self, name: String, fetched: Result<Vec<NamedValue>, String>)
        requires
            old(self).wf(),
        ensures
            final(self).wf(),
            final(self).cached(name@) == if old(self).depth() > 0 && old(self).cached(name@) is None {
                Some(
                    match fetched {
                        Ok(v) => v@,
                        Err(_) => Seq::empty(),
                    },
                )
            } else {
                old(self).cached(name@)
            },
            forall|n: Seq<char>| n != name@ ==> final(self).cached(n) == old(self).cached(n),
            final(self).depth() == old(self).depth(),
            final(self).children() == old(self).children(),
            final(self).path() == old(self).path(),
            final(self).key_table == old(self).key_table,
            final(self).view_state == old(self).view_state,
            final(self).input == old(self).input,
            final(self).message == old(self).message,
    {
        let n = self.key_states.len();
        if n == 0 {
            return;
        }
        if find_cached(&self.key_states[n - 1].cached_values, name.as_str()).is_some() {
            return;
        }
        let values = match fetched {
            Ok(v) => v,
            Err(_) => Vec::new(),
        };
        let ghost old_self = *self;
        let mut state = self.key_states.pop().unwrap();
        let ghost old_entries = state.cached_values@;
        state.cached_values.push(CachedValues { name, values });
        assert(state.cached_values@.drop_last() == old_entries);
        self.key_states.push(state);
        proof {
            assert(self.key_states@.drop_last() =~= old_self.key_states@.drop_last());
            assert(self.key_states@.last().subkeys@[0] == old_self.key_states@.last().subkeys@[0]);
            lemma_top_replaced_wf(old_self.key_states@, self.key_states@);
        }
        self.update_values();
    }

    /// The upper bound of the cursor in the active pane.
    fn get_current_view_max(&self) -> (r: usize)
        requires
            self.wf(),
        ensures
            r == match self.view_state {
                ViewState::Keys => last_index(self.key_table.content_length as nat),
                ViewState::Values => last_index(self.value_table.content_length as nat),
                _ => 0,
            },
    {
        let len = match self.view_state {
            ViewState::Keys => self.get_subkeys().len(),
            ViewState::Values => match self.get_values() {
                Some(v) => v.len(),
                None => 0,
            },
            _ => 0,
        };
        if len == 0 {
            0
        } else {
            len - 1
        }
    }

    /// Moves the cursor of a pane to row `i`.
    fn select_row_in(&mut self, view: ViewState, i: usize)
        requires
            old(self).wf(),
            view is Keys ==> i <= last_index(old(self).key_table.content_length as nat),
            view is Values ==> i <= last_index(old(self).value_table.content_length as nat),
        ensures
            final(self).wf(),
            final(self).key_states == old(self).key_states,
            final(self).base_subkeys == old(self).base_subkeys,
            final(self).base_path == old(self).base_path,
            final(self).view_state == old(self).view_state,
            final(self).input == old(self).input,
            final(self).message == old(self).message,
            view is Keys ==> final(self).key_table.selected == i && final(self).value_table.selected
                == 0,
            view is Values ==> final(self).value_table.selected == i && final(self).key_table
                == old(self).key_table,
            !(view is Keys || view is Values) ==> *final(self) == *old(self),
    {
        match view {
            ViewState::Keys => {
                self.key_table.select(i);
                self.update_values();
            },
            ViewState::Values => {
                self.value_table.select(i);
            },
            _ => {},
        }
    }

    /// Moves the cursor of the active pane one row down, staying on the last row.
    pub fn next_row(&mut self)
        requires
            old(self).wf(),
        ensures
            final(self).wf(),
            final(self).frames() == old(self).frames(),
            final(self).view_state == old(self).view_state,
            final(self).input == old(self).input,
            final(self).message == old(self).message,
            old(self).view_state is Keys ==> final(self).value_table.selected == 0,
            match old(self).view_state {
                ViewState::Keys => final(self).key_table.selected == next_index(
                    old(self).key_table.selected as nat,
                    old(self).children().len(),
                ),
                ViewState::Values => final(self).value_table.selected == next_index(
                    old(self).value_table.selected as nat,
                    len_or_zero(old(self).values()),
                ) && final(self).key_table == old(self).key_table,
                _ => *final(self) == *old(self),
            },
    {
        let max = self.get_current_view_max();
        let i = match self.get_selected_table() {
            Some(table) => if table.selected < max {
                table.selected + 1
            } else {
                table.selected
            },
            None => return ,
        };
        self.select_row_in(self.view_state, i);
    }

    /// Moves the cursor of the active pane one row up, staying on the first row.
    pub fn prev_row(&mut self)
        requires
            old(self).wf(),
        ensures
            final(self).wf(),
            final(self).frames() == old(self).frames(),
            final(self).view_state == old(self).view_state,
            final(self).input == old(self).input,
            final(self).message == old(self).message,
            old(self).view_state is Keys ==> final(self).value_table.selected == 0,
            match old(self).view_state {
                ViewState::Keys => final(self).key_table.selected == prev_index(
                    old(self).key_table.selected as nat,
                ),
                ViewState::Values => final(self).value_table.selected == prev_index(
                    old(self).value_table.selected as nat,
                ) && final(self).key_table == old(self).key_table,
                _ => *final(self) == *old(self),
            },
    {
        let i = match self.get_selected_table() {
            Some(table) => if table.selected > 0 {
                table.selected - 1
            } else {
                0
            },
            None => return ,
        };
        self.select_row_in(self.view_state, i);
    }

    fn get_key_view_state(&self) -> (r: KeyViewState)
        ensures
            r == if self.depth() == 0 {
                KeyViewState::Base
            } else {
                KeyViewState::Subkey
            },
    {
        if self.key_states.len() == 0 {
            KeyViewState::Base
        } else {
            KeyViewState::Subkey
        }
    }

    /// The breadcrumb of the current listing.
    pub fn get_path(&self) -> (r: &str)
        ensures
            r@ == self.path(),
    {
        match self.get_key_view_state() {
            KeyViewState::Base => self.base_path.as_str(),
            KeyViewState::Subkey => self.key_states[self.key_states.len() - 1].cached_path.as_str(),
        }
    }

    /// The listing shown in the children pane.
    pub fn get_subkeys(&self) -> (r: &Vec<String>)
        ensures
            views(r@) == self.children(),
    {
        match self.get_key_view_state() {
            KeyViewState::Base => &self.base_subkeys,
            KeyViewState::Subkey => &self.key_states[self.key_states.len() - 1].subkeys,
        }
    }

    /// The handle of the node on top of the stack.
    pub fn current_key(&self) -> (r: Option<&H>)
        ensures
            match r {
                Some(k) => self.depth() > 0 && *k == self.frames().last().key,
                None => self.depth() == 0,
            },
    {
        let n = self.key_states.len();
        if n == 0 {
            None
        } else {
            Some(&self.key_states[n - 1].key)
        }
    }

    /// Acts on the selected entry of the children pane. The way up closes the
    /// node on top of the stack; any other entry names a node to open, which
    /// the caller opens and hands to `push_key`.
    pub fn select(&mut self) -> (r: Option<OpenRequest>)
        requires
            old(self).wf(),
        ensures
            final(self).wf(),
            final(self).root_label() == old(self).root_label(),
            final(self).root_children() == old(self).root_children(),
            final(self).view_state == old(self).view_state,
            old(self).depth() == 0 ==> *final(self) == *old(self) && match r {
                Some(OpenRequest::Root { index, name }) => index == old(self).key_table.selected
                    && name@ == old(self).root_children()[index as int],
                _ => false,
            },
            old(self).depth() > 0 && old(self).key_table.selected == 0 ==> r is None
                && final(self).frames() == old(self).frames().drop_last()
                && final(self).key_table.selected == 0,
            old(self).depth() > 0 && old(self).key_table.selected > 0 ==> *final(self) == *old(self)
                && match r {
                Some(OpenRequest::Child { name }) => old(self).selected_child() == Some(name@),
                _ => false,
            },
    {
        let i = self.key_table.selected;
        let n = self.key_states.len();
        if n == 0 {
            return Some(OpenRequest::Root { index: i, name: self.base_subkeys[i].clone() });
        }
        if i == 0 {
            let _ = self.key_states.pop();
            let len = self.get_subkeys().len();
            self.key_table.resize(len);
            self.update_values();
            return None;
        }
        Some(OpenRequest::Child { name: self.key_states[n - 1].subkeys[i].clone() })
    }

    /// Puts a freshly opened node on top of the stack: `name` is the entry it
    /// was opened by, `subkeys` the names of its children in any order.
    pub fn push_key(&mut self, key: H, name: String, subkeys: Vec<String>)
        requires
            old(self).wf(),
        ensures
            final(self).wf(),
            final(self).depth() == old(self).depth() + 1,
            final(self).frames().drop_last() == old(self).frames(),
            final(self).frames().last().key == key,
            forall|n: Seq<char>| final(self).cached(n) is None,
            final(self).path() == child_path(old(self).path(), name@),
            final(self).children()[0] == go_up(),
            final(self).children().len() == subkeys@.len() + 1,
            sorted_from(final(self).children(), 1),
            final(self).children().subrange(1, final(self).children().len() as int).to_multiset()
                == views(subkeys@).to_multiset(),
            final(self).key_table.selected == 0,
            final(self).root_label() == old(self).root_label(),
            final(self).root_children() == old(self).root_children(),
            final(self).view_state == old(self).view_state,
            final(self).input == old(self).input,
            final(self).message == old(self).message,
    {
        let listing = create_subkeys(subkeys);
        let state = KeyState::new(key, name, listing, self.get_path());
        let ghost old_states = self.key_states@;
        self.key_states.push(state);
        assert(self.key_states@.drop_last() == old_states);
        let len = self.get_subkeys().len();
        self.key_table.resize(len);
        self.update_values();
    }

    /// A change to the store that the listing on top of the stack can follow:
    /// a node is open, a created name is not listed yet, and a renamed or
    /// deleted name is listed after the way up.
    pub open spec fn request_fits(&self, request: StoreRequest) -> bool {
        &&& self.depth() > 0
        &&& match request {
            StoreRequest::CreateKey { name } => !self.children().contains(name@),
            StoreRequest::RenameKey { original, .. } => original@ != go_up() && listed(
                self.children(),
                original@,
            ),
            StoreRequest::DeleteKey { name } => listed(self.children(), name@),
        }
    }

    /// Whether the listing on top of the stack can follow `request`.
    pub fn can_apply(&self, request: &StoreRequest) -> (r: bool)
        requires
            self.wf(),
        ensures
            r == self.request_fits(*request),
    {
        let n = self.key_states.len();
        if n == 0 {
            return false;
        }
        let subkeys = &self.key_states[n - 1].subkeys;
        proof {
            assert(forall|j: int|
                0 <= j < subkeys@.len() ==> #[trigger] self.children()[j] == subkeys@[j]@);
        }
        match request {
            StoreRequest::CreateKey { name } => {
                let found = position_of(subkeys, 0, name.as_str());
                proof {
                    if let Some(p) = found {
                        assert(self.children()[p as int] == name@);
                    } else {
                        assert forall|j: int| 0 <= j < self.children().len() implies self.children()[j]
                            != name@ by {
                            assert(subkeys@[j]@ != name@);
                        }
                    }
                }
                found.is_none()
            },
            StoreRequest::RenameKey { original, .. } => {
                proof {
                    reveal_strlit("..");
                }
                let found = position_of(subkeys, 1, original.as_str());
                proof {
                    if let Some(p) = found {
                        assert(self.children()[p as int] == original@);
                    } else {
                        assert forall|j: int| 1 <= j < self.children().len() implies #[trigger] self.children()[j]
                            != original@ by {
                            assert(subkeys@[j]@ != original@);
                        }
                    }
                }
                !str_eq(original.as_str(), "..") && found.is_some()
            },
            StoreRequest::DeleteKey { name } => {
                let found = position_of(subkeys, 1, name.as_str());
                proof {
                    if let Some(p) = found {
                        assert(self.children()[p as int] == name@);
                    } else {
                        assert forall|j: int| 1 <= j < self.children().len() implies #[trigger] self.children()[j]
                            != name@ by {
                            assert(subkeys@[j]@ != name@);
                        }
                    }
                }
                found.is_some()
            },
        }
    }

    /// Adds a key to the listing on top of the stack where it goes among the
    /// children, and moves the cursor to it.
    fn post_action_add_subkey(&mut self, action: ActionAddSubkey) -> (p: usize)
        requires
            old(self).wf(),
            old(self).depth() > 0,
            !old(self).children().contains(action.name@),
        ensures
            final(self).wf(),
            is_sorted_position(old(self).children(), 1, action.name@, p as int),
            final(self).children() == old(self).children().insert(p as int, action.name@),
            final(self).key_table.selected == p,
            final(self).depth() == old(self).depth(),
            final(self).frames().drop_last() == old(self).frames().drop_last(),
            final(self).path() == old(self).path(),
            final(self).root_label() == old(self).root_label(),
            final(self).root_children() == old(self).root_children(),
            final(self).view_state == old(self).view_state,
            final(self).input == old(self).input,
            final(self).message == old(self).message,
    {
        let ghost old_self = *self;
        let mut state = self.key_states.pop().unwrap();
        let p = sorted_position(&state.subkeys, 1, action.name.as_str());
        let ghost before = state.subkeys@;
        state.subkeys.insert(p, action.name);
        assert(views(state.subkeys@) =~= views(before).insert(p as int, views(state.subkeys@)[p as int]));
        self.key_states.push(state);
        proof {
            assert(self.key_states@.drop_last() =~= old_self.key_states@.drop_last());
            assert(self.key_states@.last().subkeys@[0] == old_self.key_states@.last().subkeys@[0]);
            lemma_top_replaced_wf(old_self.key_states@, self.key_states@);
        }
        let len = self.get_subkeys().len();
        self.key_table.resize(len);
        self.update_values();
        self.select_row_in(ViewState::Keys, p);
        p
    }

    /// Gives the key `original` of the listing on top of the stack its new
    /// name, where it stands.
    fn post_action_rename_subkey(&mut self, action: ActionRenameSubkey) -> (p: usize)
        requires
            old(self).wf(),
            old(self).depth() > 0,
            action.original@ != go_up(),
            listed(old(self).children(), action.original@),
        ensures
            final(self).wf(),
            1 <= p < old(self).children().len(),
            old(self).children()[p as int] == action.original@,
            forall|j: int| 0 <= j < p ==> #[trigger] old(self).children()[j] != action.original@,
            final(self).children() == old(self).children().update(p as int, action.new@),
            final(self).key_table == old(self).key_table,
            final(self).depth() == old(self).depth(),
            final(self).frames().drop_last() == old(self).frames().drop_last(),
            final(self).path() == old(self).path(),
            final(self).root_label() == old(self).root_label(),
            final(self).root_children() == old(self).root_children(),
            final(self).view_state == old(self).view_state,
            final(self).input == old(self).input,
            final(self).message == old(self).message,
    {
        let n = self.key_states.len();
        let found = position_of(&self.key_states[n - 1].subkeys, 1, action.original.as_str());
        let ghost old_self = *self;
        proof {
            assert(forall|j: int|
                0 <= j < self.children().len() ==> #[trigger] self.children()[j]
                    == self.key_states@.last().subkeys@[j]@);
        }
        let p = match found {
            Some(p) => p,
            None => {
                return 0;
            },
        };
        let mut state = self.key_states.pop().unwrap();
        let ghost before = state.subkeys@;
        state.subkeys.set(p, action.new);
        assert(views(state.subkeys@) =~= views(before).update(p as int, views(state.subkeys@)[p as int]));
        self.key_states.push(state);
        proof {
            assert(self.key_states@.drop_last() =~= old_self.key_states@.drop_last());
            assert(self.key_states@.last().subkeys@[0] == old_self.key_states@.last().subkeys@[0]);
            lemma_top_replaced_wf(old_self.key_states@, self.key_states@);
            reveal_strlit("..");
            assert forall|j: int| 0 <= j < p implies #[trigger] old_self.children()[j] != action.original@ by {
                assert(old_self.children()[j] == before[j]@);
            }
        }
        self.update_values();
        p
    }

    /// Takes the key `name` out of the listing on top of the stack, and moves
    /// the cursor to the entry before it.
    fn post_action_delete_subkey(&mut self, action: ActionDeleteSubkey) -> (p: usize)
        requires
            old(self).wf(),
            old(self).depth() > 0,
            listed(old(self).children(), action.name@),
        ensures
            final(self).wf(),
            1 <= p < old(self).children().len(),
            old(self).children()[p as int] == action.name@,
            forall|j: int| 1 <= j < p ==> #[trigger] old(self).children()[j] != action.name@,
            final(self).children() == old(self).children().remove(p as int),
            final(self).key_table.selected == p - 1,
            final(self).key_table.content_length == old(self).children().len() - 1,
            final(self).depth() == old(self).depth(),
            final(self).frames().drop_last() == old(self).frames().drop_last(),
            final(self).path() == old(self).path(),
            final(self).root_label() == old(self).root_label(),
            final(self).root_children() == old(self).root_children(),
            final(self).view_state == old(self).view_state,
            final(self).input == old(self).input,
            final(self).message == old(self).message,
    {
        let n = self.key_states.len();
        let found = position_of(&self.key_states[n - 1].subkeys, 1, action.name.as_str());
        let ghost old_self = *self;
        proof {
            assert(forall|j: int|
                0 <= j < self.children().len() ==> #[trigger] self.children()[j]
                    == self.key_states@.last().subkeys@[j]@);
        }
        let p = match found {
            Some(p) => p,
            None => {
                return 0;
            },
        };
        let mut state = self.key_states.pop().unwrap();
        let ghost before = state.subkeys@;
        let _ = state.subkeys.remove(p);
        assert(views(state.subkeys@) =~= views(before).remove(p as int));
        self.key_states.push(state);
        proof {
            assert(self.key_states@.drop_last() =~= old_self.key_states@.drop_last());
            assert(self.key_states@.last().subkeys@[0] == old_self.key_states@.last().subkeys@[0]);
            lemma_top_replaced_wf(old_self.key_states@, self.key_states@);
            assert forall|j: int| 1 <= j < p implies #[trigger] old_self.children()[j] != action.name@ by {
                assert(old_self.children()[j] == before[j]@);
            }
        }
        let len = self.get_subkeys().len();
        self.key_table.resize(len);
        self.update_values();
        self.select_row_in(ViewState::Keys, p - 1);
        p
    }

    /// Shows a notice that, once dismissed, goes back to `last_selected`.
    pub fn set_message_with_state(&mut self, message: AppMessage, last_selected: LastSelected)
        requires
            old(self).wf(),
            last_selected != LastSelected::Neither,
        ensures
            final(self).wf(),
            final(self).view_state == ViewState::Message(last_selected),
            final(self).message == Some(message),
            final(self).key_states == old(self).key_states,
            final(self).base_subkeys == old(self).base_subkeys,
            final(self).base_path == old(self).base_path,
            final(self).key_table == old(self).key_table,
            final(self).value_table == old(self).value_table,
            final(self).input == old(self).input,
    {
        self.view_state = ViewState::Message(last_selected);
        self.message = Some(message);
    }

    /// Shows a notice over the current pane, or over the pane that a prompt or
    /// notice already remembers.
    pub fn set_message(&mut self, message: AppMessage)
        requires
            old(self).wf(),
        ensures
            final(self).wf(),
            final(self).view_state == ViewState::Message(remembered_pane(old(self).view_state)),
            final(self).message == Some(message),
            final(self).key_states == old(self).key_states,
            final(self).base_subkeys == old(self).base_subkeys,
            final(self).base_path == old(self).base_path,
            final(self).key_table == old(self).key_table,
            final(self).value_table == old(self).value_table,
            final(self).input == old(self).input,
    {
        let last = match self.view_state {
            ViewState::Input(l) => l,
            ViewState::Message(l) => l,
            v => to_last_selected(v),
        };
        self.set_message_with_state(message, last);
    }

    /// Dismisses the notice and goes back to the pane it remembers.
    pub fn cancel_message(&mut self)
        requires
            old(self).wf(),
        ensures
            final(self).wf(),
            final(self).view_state == match old(self).view_state {
                ViewState::Message(l) => restored(l),
                v => v,
            },
            final(self).message is None,
            final(self).key_states == old(self).key_states,
            final(self).base_subkeys == old(self).base_subkeys,
            final(self).base_path == old(self).base_path,
            final(self).key_table == old(self).key_table,
            final(self).value_table == old(self).value_table,
            final(self).input == old(self).input,
    {
        self.view_state = match self.view_state {
            ViewState::Message(l) => to_view_state(l),
            v => v,
        };
        self.message = None;
    }

    /// Opens an input session of kind `ty`, keeping the pane to go back to.
    fn set_input_state(
        &mut self,
        ty: InputType,
        validate_fn: Option<InputValidator>,
        confirm_fn: Option<InputConfirm>,
    )
        requires
            old(self).wf(),
            ty is Choice ==> ty->Choice_0.wf(),
        ensures
            final(self).wf(),
            final(self).view_state == ViewState::Input(remembered_pane(old(self).view_state)),
            final(self).input.ty == ty,
            final(self).input.validate_fn == validate_fn,
            final(self).input.confirm_fn == confirm_fn,
            final(self).input.label == old(self).input.label,
            final(self).input.buffer == old(self).input.buffer,
            final(self).key_states == old(self).key_states,
            final(self).base_subkeys == old(self).base_subkeys,
            final(self).base_path == old(self).base_path,
            final(self).key_table == old(self).key_table,
            final(self).value_table == old(self).value_table,
            final(self).message == old(self).message,
    {
        self.view_state = match self.view_state {
            ViewState::Input(l) => ViewState::Input(l),
            ViewState::Message(l) => ViewState::Input(l),
            v => ViewState::Input(to_last_selected(v)),
        };
        self.input.ty = ty;
        self.input.validate_fn = validate_fn;
        self.input.confirm_fn = confirm_fn;
    }

    /// Asks for text, checked by `validate` and handed to `confirm`.
    pub fn set_textarea_input(&mut self, validate: InputValidator, confirm: InputConfirm)
        requires
            old(self).wf(),
        ensures
            final(self).wf(),
            final(self).view_state == ViewState::Input(remembered_pane(old(self).view_state)),
            final(self).input.ty is TextArea,
            final(self).input.validate_fn == Some(validate),
            final(self).input.confirm_fn == Some(confirm),
            final(self).input.label == old(self).input.label,
            final(self).input.buffer@ == Seq::<char>::empty(),
            final(self).key_states == old(self).key_states,
            final(self).base_subkeys == old(self).base_subkeys,
            final(self).base_path == old(self).base_path,
            final(self).key_table == old(self).key_table,
            final(self).value_table == old(self).value_table,
            final(self).message == old(self).message,
    {
        self.set_input_state(InputType::TextArea, Some(validate), Some(confirm));
        self.input.buffer = String::new();
    }

    /// Asks for one of `choices`, the first one chosen, handed to `confirm`.
    pub fn set_choice_input(&mut self, choices: Vec<String>, confirm: InputConfirm)
        requires
            old(self).wf(),
            choices.len() > 0,
        ensures
            final(self).wf(),
            final(self).view_state == ViewState::Input(remembered_pane(old(self).view_state)),
            final(self).input.ty is Choice,
            final(self).input.ty->Choice_0.items@ == choices@,
            final(self).input.ty->Choice_0.selected == 0,
            final(self).input.validate_fn is None,
            final(self).input.confirm_fn == Some(confirm),
            final(self).input.label == old(self).input.label,
            final(self).key_states == old(self).key_states,
            final(self).base_subkeys == old(self).base_subkeys,
            final(self).base_path == old(self).base_path,
            final(self).key_table == old(self).key_table,
            final(self).value_table == old(self).value_table,
            final(self).message == old(self).message,
    {
        self.set_input_state(InputType::Choice(InputChoices::new(choices)), None, Some(confirm));
    }

    /// Chooses the next answer, wrapping round to the first.
    pub fn next_input_choice(&mut self)
        requires
            old(self).wf(),
        ensures
            final(self).wf(),
            match old(self).input.ty {
                InputType::Choice(c) => final(self).input.ty is Choice
                    && final(self).input.ty->Choice_0.items == c.items
                    && final(self).input.ty->Choice_0.selected == (c.selected + 1) % (
                c.items.len() as int),
                InputType::TextArea => *final(self) == *old(self),
            },
            final(self).view_state == old(self).view_state,
            final(self).key_states == old(self).key_states,
            final(self).base_subkeys == old(self).base_subkeys,
            final(self).base_path == old(self).base_path,
            final(self).key_table == old(self).key_table,
            final(self).value_table == old(self).value_table,
            final(self).message == old(self).message,
            final(self).input.label == old(self).input.label,
            final(self).input.buffer == old(self).input.buffer,
            final(self).input.confirm_fn == old(self).input.confirm_fn,
            final(self).input.validate_fn == old(self).input.validate_fn,
    {
        match &mut self.input.ty {
            InputType::Choice(c) => {
                let len = c.items.len();
                proof {
                    if c.selected + 1 < len {
                        lemma_small_mod((c.selected + 1) as nat, len as nat);
                    } else {
                        lemma_mod_self_0(len as int);
                    }
                }
                c.selected = if c.selected + 1 < len {
                    c.selected + 1
                } else {
                    0
                };
            },
            InputType::TextArea => {},
        }
    }

    /// Chooses the previous answer, wrapping round to the last.
    pub fn prev_input_choice(&mut self)
        requires
            old(self).wf(),
        ensures
            final(self).wf(),
            match old(self).input.ty {
                InputType::Choice(c) => final(self).input.ty is Choice
                    && final(self).input.ty->Choice_0.items == c.items
                    && final(self).input.ty->Choice_0.selected == (c.selected + c.items.len() - 1)
                    % (c.items.len() as int),
                InputType::TextArea => *final(self) == *old(self),
            },
            final(self).view_state == old(self).view_state,
            final(self).key_states == old(self).key_states,
            final(self).base_subkeys == old(self).base_subkeys,
            final(self).base_path == old(self).base_path,
            final(self).key_table == old(self).key_table,
            final(self).value_table == old(self).value_table,
            final(self).message == old(self).message,
            final(self).input.label == old(self).input.label,
            final(self).input.buffer == old(self).input.buffer,
            final(self).input.confirm_fn == old(self).input.confirm_fn,
            final(self).input.validate_fn == old(self).input.validate_fn,
    {
        match &mut self.input.ty {
            InputType::Choice(c) => {
                let len = c.items.len();
                proof {
                    if c.selected > 0 {
                        lemma_mod_add_multiples_vanish((c.selected - 1) as int, len as int);
                        lemma_small_mod((c.selected - 1) as nat, len as nat);
                    } else {
                        lemma_small_mod((len - 1) as nat, len as nat);
                    }
                }
                c.selected = if c.selected > 0 {
                    c.selected - 1
                } else {
                    len - 1
                };
            },
            InputType::TextArea => {},
        }
    }

    /// Closes the input session and goes back to the pane it remembers.
    pub fn reset_input(&mut self)
        requires
            old(self).wf(),
        ensures
            final(self).wf(),
            final(self).view_state == match old(self).view_state {
                ViewState::Input(l) => restored(l),
                v => v,
            },
            final(self).input.validate_fn is None,
            final(self).input.confirm_fn is None,
            final(self).input.buffer@ == Seq::<char>::empty(),
            final(self).input.label@ == "No Input Required"@,
            final(self).input.ty == old(self).input.ty,
            final(self).key_states == old(self).key_states,
            final(self).base_subkeys == old(self).base_subkeys,
            final(self).base_path == old(self).base_path,
            final(self).key_table == old(self).key_table,
            final(self).value_table == old(self).value_table,
            final(self).message == old(self).message,
    {
        self.view_state = match self.view_state {
            ViewState::Input(l) => to_view_state(l),
            v => v,
        };
        self.input.validate_fn = None;
        self.input.confirm_fn = None;
        self.input.buffer = String::new();
        self.input.label = "No Input Required".to_owned();
    }


    /// Asks for the kind of the new value `stage.name`.
    fn input_stage_new_value_type(&mut self, stage: StageNewValueType)
        requires
            old(self).wf(),
        ensures
            final(self).wf(),
            final(self).view_state == ViewState::Input(remembered_pane(old(self).view_state)),
            final(self).asks_type(stage.name@),
            final(self).key_states == old(self).key_states,
            final(self).key_table == old(self).key_table,
            final(self).value_table == old(self).value_table,
            final(self).message == old(self).message,
            final(self).base_subkeys == old(self).base_subkeys,
            final(self).base_path == old(self).base_path,
    {
        self.input.label = "Choose Type:".to_owned();
        let choices = get_type_choices_vec();
        assert(views(choices@).len() == 6);
        self.set_choice_input(
            choices,
            InputConfirm::Stage(InputStageType::NewValueType(stage)),
        );
    }

    /// Asks for the data of the new value `stage.name` of kind `stage.ty`.
    fn input_stage_new_value_data(&mut self, stage: StageNewValueData)
        requires
            old(self).wf(),
        ensures
            final(self).wf(),
            final(self).view_state == ViewState::Input(remembered_pane(old(self).view_state)),
            final(self).asks_data(stage.name@, stage.ty),
            final(self).key_states == old(self).key_states,
            final(self).key_table == old(self).key_table,
            final(self).value_table == old(self).value_table,
            final(self).message == old(self).message,
            final(self).base_subkeys == old(self).base_subkeys,
            final(self).base_path == old(self).base_path,
    {
        self.input.label = "Enter Value:".to_owned();
        self.set_textarea_input(
            InputValidator::AnyText,
            InputConfirm::Stage(InputStageType::NewValueData(stage)),
        );
    }

    /// Asks for the next input of a staged command.
    fn post_action_stage(&mut self, action: ActionStage)
        requires
            old(self).wf(),
        ensures
            final(self).wf(),
            final(self).view_state == ViewState::Input(remembered_pane(old(self).view_state)),
            match action.ty {
                InputStageType::NewValueType(st) => final(self).asks_type(st.name@),
                InputStageType::NewValueData(st) => final(self).asks_data(st.name@, st.ty),
            },
            final(self).key_states == old(self).key_states,
            final(self).key_table == old(self).key_table,
            final(self).value_table == old(self).value_table,
            final(self).message == old(self).message,
            final(self).base_subkeys == old(self).base_subkeys,
            final(self).base_path == old(self).base_path,
    {
        match action.ty {
            InputStageType::NewValueType(stage) => self.input_stage_new_value_type(stage),
            InputStageType::NewValueData(stage) => self.input_stage_new_value_data(stage),
        }
    }

    /// The session asks which kind the new value `name` has.
    pub open spec fn asks_type(&self, name: Seq<char>) -> bool {
        &&& self.input.label@ == "Choose Type:"@
        &&& self.input.validate_fn is None
        &&& self.input.ty is Choice
        &&& self.input.ty->Choice_0.selected == 0
        &&& views(self.input.ty->Choice_0.items@) == type_labels().subrange(0, 6)
        &&& match self.input.confirm_fn {
            Some(InputConfirm::Stage(InputStageType::NewValueType(st))) => st.name@ == name,
            _ => false,
        }
    }

    /// The session asks for the data of the new value `name` of kind `ty`.
    pub open spec fn asks_data(&self, name: Seq<char>, ty: ValueType) -> bool {
        &&& self.input.label@ == "Enter Value:"@
        &&& self.input.buffer@ == Seq::<char>::empty()
        &&& self.input.validate_fn == Some(InputValidator::AnyText)
        &&& self.input.ty is TextArea
        &&& match self.input.confirm_fn {
            Some(InputConfirm::Stage(InputStageType::NewValueData(st))) => st.name@ == name && st.ty
                == ty,
            _ => false,
        }
    }

    /// `new` asks the next question of a staged command; all else stays.
    pub open spec fn kept_for_next_prompt(&self, new: &Self) -> bool {
        &&& new.view_state == self.view_state
        &&& new.frames() == self.frames()
        &&& new.root_children() == self.root_children()
        &&& new.root_label() == self.root_label()
        &&& new.key_table == self.key_table
        &&& new.value_table == self.value_table
        &&& new.message == self.message
    }

    /// `new` is `self` with its input session closed and nothing else changed
    /// but the state it went back to.
    pub open spec fn closed_into(&self, new: &Self) -> bool {
        &&& new.view_state == match self.view_state {
            ViewState::Input(l) => restored(l),
            v => v,
        }
        &&& new.input.confirm_fn is None
        &&& new.input.validate_fn is None
        &&& new.input.label@ == "No Input Required"@
        &&& new.frames() == self.frames()
        &&& new.root_children() == self.root_children()
        &&& new.root_label() == self.root_label()
        &&& new.key_table == self.key_table
        &&& new.value_table == self.value_table
        &&& new.message == self.message
    }

    /// What confirming the input session does: from `self` to `new`, handing
    /// back the change to the store that it needs, if any.
    pub open spec fn confirm_post(&self, new: &Self, r: Option<StoreRequest>) -> bool {
        if !(self.view_state is Input) || !input_accepted(self.input) {
            r is None && *new == *self
        } else {
            let text = confirmed_text(self.input);
            match self.input.confirm_fn {
                None => r is None && self.closed_into(new),
                Some(InputConfirm::NewKey) => *new == *self && match r {
                    Some(StoreRequest::CreateKey { name }) => name@ == text,
                    _ => false,
                },
                Some(InputConfirm::RenameKey { original }) => *new == *self && match r {
                    Some(StoreRequest::RenameKey { original: o, new: n }) => o@ == original@ && n@
                        == text,
                    _ => false,
                },
                Some(InputConfirm::DeleteKey { name }) => if text == "No"@ {
                    r is None && self.closed_into(new)
                } else {
                    *new == *self && match r {
                        Some(StoreRequest::DeleteKey { name: n }) => n@ == name@,
                        _ => false,
                    }
                },
                Some(InputConfirm::NewValue) => r is None && self.kept_for_next_prompt(new)
                    && new.asks_type(text),
                Some(InputConfirm::Stage(InputStageType::NewValueType(st))) => r is None
                    && self.kept_for_next_prompt(new) && new.asks_data(
                    st.name@,
                    type_of_label(text),
                ),
                Some(InputConfirm::Stage(InputStageType::NewValueData(_))) => r is None
                    && self.closed_into(new),
            }
        }
    }

    /// Confirms the input session, where its validator accepts the text. A
    /// step of a staged command opens the next prompt at once; a command that
    /// changes the store hands back the change, for the caller to make and
    /// report to `finish_request`.
    pub fn confirm_input(&mut self) -> (r: Option<StoreRequest>)
        requires
            old(self).wf(),
        ensures
            final(self).wf(),
            old(self).confirm_post(final(self), r),
    {
        if !self.view_state.is_input() {
            return None;
        }
        if !self.input.accepted() {
            return None;
        }
        let text = match &self.input.ty {
            InputType::TextArea => self.input.text(),
            InputType::Choice(c) => c.items[c.selected].clone(),
        };
        let ghost old_self = *self;
        let confirm = self.input.confirm_fn.take();
        match confirm {
            None => {
                self.reset_input();
                None
            },
            Some(InputConfirm::NewKey) => {
                self.input.confirm_fn = Some(InputConfirm::NewKey);
                assert(*self == old_self);
                Some(StoreRequest::CreateKey { name: text })
            },
            Some(InputConfirm::RenameKey { original }) => {
                let o = original.clone();
                self.input.confirm_fn = Some(InputConfirm::RenameKey { original });
                assert(*self == old_self);
                Some(StoreRequest::RenameKey { original: o, new: text })
            },
            Some(InputConfirm::DeleteKey { name }) => {
                if str_eq(text.as_str(), "No") {
                    self.reset_input();
                    None
                } else {
                    let n = name.clone();
                    self.input.confirm_fn = Some(InputConfirm::DeleteKey { name });
                    assert(*self == old_self);
                    Some(StoreRequest::DeleteKey { name: n })
                }
            },
            Some(InputConfirm::NewValue) => {
                self.post_action_stage(
                    ActionStage {
                        ty: InputStageType::NewValueType(StageNewValueType { name: text }),
                    },
                );
                None
            },
            Some(InputConfirm::Stage(InputStageType::NewValueType(stage))) => {
                let ty = str_to_type(text.as_str());
                self.post_action_stage(
                    ActionStage {
                        ty: InputStageType::NewValueData(StageNewValueData { name: stage.name, ty }),
                    },
                );
                None
            },
            Some(InputConfirm::Stage(InputStageType::NewValueData(_))) => {
                self.reset_input();
                None
            },
        }
    }


    /// Reports how the store carried out the change that `confirm_input`
    /// handed back: a notice says so, the listing follows a change that was
    /// made, and the input session closes.
    pub fn finish_request(&mut self, request: StoreRequest, result: Result<(), String>)
        requires
            old(self).wf(),
            old(self).view_state is Input && result is Ok ==> old(self).request_fits(request),
        ensures
            final(self).wf(),
            !(old(self).view_state is Input) ==> *final(self) == *old(self),
            old(self).view_state is Input ==> {
                &&& final(self).view_state == ViewState::Message(old(self).view_state->Input_0)
                &&& final(self).input.confirm_fn is None
                &&& final(self).input.validate_fn is None
                &&& final(self).message is Some
                &&& final(self).depth() == old(self).depth()
                &&& final(self).path() == old(self).path()
                &&& match result {
                    Ok(_) => {
                        &&& final(self).message->0.ty == AppMessageType::Info
                        &&& final(self).message->0.message@ == request_success_text(request)
                        &&& old(self).request_applied(final(self), request)
                    },
                    Err(e) => {
                        &&& final(self).message->0.ty == AppMessageType::Error
                        &&& final(self).message->0.message@ == request_error_prefix(request) + e@
                        &&& final(self).frames() == old(self).frames()
                        &&& final(self).key_table == old(self).key_table
                        &&& final(self).value_table == old(self).value_table
                    },
                }
            },
    {
        let last = match self.view_state {
            ViewState::Input(l) => l,
            _ => {
                return ;
            },
        };
        proof {
            reveal_strlit("New key successfully created.");
            reveal_strlit("The key has been successfully renamed.");
            reveal_strlit("The key has been successfully deleted.");
            reveal_strlit("Error when creating a new key: ");
            reveal_strlit("Error when renaming the key: ");
            reveal_strlit("Error when deleting the key: ");
        }
        match result {
            Err(e) => {
                let prefix = match request {
                    StoreRequest::CreateKey { .. } => "Error when creating a new key: ",
                    StoreRequest::RenameKey { .. } => "Error when renaming the key: ",
                    StoreRequest::DeleteKey { .. } => "Error when deleting the key: ",
                };
                let text = prefix.to_owned().concat(e.as_str());
                self.set_message_with_state(AppMessage::error(text.as_str()), last);
                self.reset_input();
            },
            Ok(()) => match request {
                StoreRequest::CreateKey { name } => {
                    self.set_message_with_state(
                        AppMessage::info("New key successfully created."),
                        last,
                    );
                    let ghost n = name@;
                    let p = self.post_action_add_subkey(ActionAddSubkey { name });
                    self.reset_input();
                    assert(is_sorted_position(old(self).children(), 1, n, p as int));
                },
                StoreRequest::RenameKey { original, new } => {
                    self.set_message_with_state(
                        AppMessage::info("The key has been successfully renamed."),
                        last,
                    );
                    let ghost (o, w) = (original@, new@);
                    let p = self.post_action_rename_subkey(ActionRenameSubkey { original, new });
                    self.reset_input();
                    assert(self.children() == old(self).children().update(p as int, w));
                    assert(old(self).children()[p as int] == o);
                },
                StoreRequest::DeleteKey { name } => {
                    self.set_message_with_state(
                        AppMessage::info("The key has been successfully deleted."),
                        last,
                    );
                    let ghost n = name@;
                    let p = self.post_action_delete_subkey(ActionDeleteSubkey { name });
                    self.reset_input();
                    assert(self.children() == old(self).children().remove(p as int));
                    assert(old(self).children()[p as int] == n);
                },
            },
        }
    }

    /// How the listing on top of the stack follows a change that the store made.
    pub open spec fn request_applied(&self, new: &Self, request: StoreRequest) -> bool {
        match request {
            StoreRequest::CreateKey { name } => exists|p: int|
                {
                    &&& is_sorted_position(self.children(), 1, name@, p)
                    &&& #[trigger] new.children() == self.children().insert(p, name@)
                    &&& new.key_table.selected == p
                },
            StoreRequest::RenameKey { original, new: n } => exists|p: int|
                {
                    &&& 1 <= p < self.children().len()
                    &&& self.children()[p] == original@
                    &&& forall|j: int| 0 <= j < p ==> #[trigger] self.children()[j] != original@
                    &&& #[trigger] new.children() == self.children().update(p, n@)
                    &&& new.key_table == self.key_table
                },
            StoreRequest::DeleteKey { name } => exists|p: int|
                {
                    &&& 1 <= p < self.children().len()
                    &&& self.children()[p] == name@
                    &&& forall|j: int| 1 <= j < p ==> #[trigger] self.children()[j] != name@
                    &&& #[trigger] new.children() == self.children().remove(p)
                    &&& new.key_table.selected == p - 1
                },
        }
    }


    /// A notice of severity `ty` saying `text` over the remembered pane.
    pub open spec fn notified(&self, new: &Self, ty: AppMessageType, text: Seq<char>) -> bool {
        &&& new.view_state == ViewState::Message(remembered_pane(self.view_state))
        &&& new.message is Some
        &&& new.message->0.ty == ty
        &&& new.message->0.message@ == text
        &&& new.frames() == self.frames()
        &&& new.root_children() == self.root_children()
        &&& new.root_label() == self.root_label()
        &&& new.value_table == self.value_table
        &&& new.key_table == self.key_table
        &&& new.input == self.input
    }

    /// A prompt over the remembered pane, with an empty text.
    pub open spec fn prompted(&self, new: &Self, label: Seq<char>) -> bool {
        &&& new.view_state == ViewState::Input(remembered_pane(self.view_state))
        &&& new.input.label@ == label
        &&& new.frames() == self.frames()
        &&& new.root_children() == self.root_children()
        &&& new.root_label() == self.root_label()
        &&& new.key_table == self.key_table
        &&& new.value_table == self.value_table
        &&& new.message == self.message
    }

    /// What starting to create a key does.
    pub open spec fn new_key_post(&self, new: &Self) -> bool {
        if self.depth() == 0 {
            self.notified(new, AppMessageType::Error, "Can't create a key here."@)
        } else {
            &&& self.prompted(new, "Enter Name:"@)
            &&& new.input.buffer@ == Seq::<char>::empty()
            &&& new.input.confirm_fn == Some(InputConfirm::NewKey)
            &&& match new.input.validate_fn {
                Some(InputValidator::KeyName { siblings }) => views(siblings@) == self.children(),
                _ => false,
            }
        }
    }

    /// Starts creating a key under the node on top of the stack: asks for its name.
    pub fn new_key(&mut self)
        requires
            old(self).wf(),
        ensures
            final(self).wf(),
            old(self).new_key_post(final(self)),
    {
        proof {
            reveal_strlit("Can't create a key here.");
            reveal_strlit("Enter Name:");
        }
        let n = self.key_states.len();
        if n == 0 {
            self.set_message(AppMessage::error("Can't create a key here."));
            return ;
        }
        let siblings = clone_names(&self.key_states[n - 1].subkeys);
        self.input.label = "Enter Name:".to_owned();
        self.set_textarea_input(InputValidator::KeyName { siblings }, InputConfirm::NewKey);
    }

    /// What starting to create a value does.
    pub open spec fn new_value_post(&self, new: &Self) -> bool {
        match self.selected_child() {
            None => self.notified(new, AppMessageType::Info, "No key selected."@),
            Some(child) => {
                &&& self.prompted(new, "Enter Name:"@)
                &&& new.input.buffer@ == Seq::<char>::empty()
                &&& new.input.confirm_fn == Some(InputConfirm::NewValue)
                &&& match new.input.validate_fn {
                    Some(InputValidator::ValueName { names }) => views(names@) == match self.cached(
                        child,
                    ) {
                        Some(v) => value_names(v),
                        None => Seq::empty(),
                    },
                    _ => false,
                }
            },
        }
    }

    /// Starts creating a value under the selected child: asks for its name,
    /// then its kind, then its data.
    pub fn new_value(&mut self)
        requires
            old(self).wf(),
        ensures
            final(self).wf(),
            old(self).new_value_post(final(self)),
    {
        proof {
            reveal_strlit("No key selected.");
            reveal_strlit("Enter Name:");
        }
        let n = self.key_states.len();
        let i = self.key_table.selected;
        if n == 0 || i >= self.key_states[n - 1].subkeys.len() {
            self.set_message(AppMessage::info("No key selected."));
            return ;
        }
        let names = {
            let state = &self.key_states[n - 1];
            match find_cached(&state.cached_values, state.subkeys[i].as_str()) {
                Some(j) => names_of_values(&state.cached_values[j].values),
                None => {
                    let v: Vec<String> = Vec::new();
                    assert(views(v@) =~= Seq::empty());
                    v
                },
            }
        };
        self.input.label = "Enter Name:".to_owned();
        self.set_textarea_input(InputValidator::ValueName { names }, InputConfirm::NewValue);
    }

    /// What starting to rename a key does.
    pub open spec fn rename_key_post(&self, new: &Self) -> bool {
        if self.depth() == 0 {
            self.notified(new, AppMessageType::Error, "Can't rename a key here."@)
        } else if self.key_table.selected == 0 {
            self.notified(new, AppMessageType::Error, "No key selected."@)
        } else {
            let current = self.children()[self.key_table.selected as int];
            &&& self.prompted(
                new,
                "Enter New Name ("@ + crate::text::truncated(
                    current,
                    byte_len(current),
                    10,
                    3,
                ) + "):"@,
            )
            &&& new.input.buffer@ == Seq::<char>::empty()
            &&& match new.input.confirm_fn {
                Some(InputConfirm::RenameKey { original }) => original@ == current,
                _ => false,
            }
            &&& match new.input.validate_fn {
                Some(InputValidator::NewKeyName { siblings, current: c }) => views(siblings@)
                    == self.children() && c@ == current,
                _ => false,
            }
        }
    }

    /// Starts renaming the selected key: asks for its new name.
    pub fn rename_key(&mut self)
        requires
            old(self).wf(),
        ensures
            final(self).wf(),
            old(self).rename_key_post(final(self)),
    {
        proof {
            reveal_strlit("Can't rename a key here.");
            reveal_strlit("No key selected.");
            reveal_strlit("Enter New Name (");
            reveal_strlit("):");
        }
        let n = self.key_states.len();
        if n == 0 {
            self.set_message(AppMessage::error("Can't rename a key here."));
            return ;
        }
        let selection = self.key_table.selected;
        if selection == 0 {
            self.set_message(AppMessage::error("No key selected."));
            return ;
        }
        let subkeys = clone_names(&self.key_states[n - 1].subkeys);
        let current_name = self.key_states[n - 1].subkeys[selection].clone();
        assert(current_name@ == self.children()[selection as int]);
        let short_name = truncate_name(current_name.as_str(), 10, 3);
        self.input.label = "Enter New Name (".to_owned().concat(short_name.as_str()).concat("):");
        let current = current_name.clone();
        self.set_textarea_input(
            InputValidator::NewKeyName { siblings: subkeys, current },
            InputConfirm::RenameKey { original: current_name },
        );
    }

    /// Values are not renamed from the session: it stays as it is.
    pub fn rename_value(&mut self)
        ensures
            *final(self) == *old(self),
    {
    }

    /// What starting to delete a key does.
    pub open spec fn delete_key_post(&self, new: &Self) -> bool {
        if self.depth() == 0 {
            self.notified(new, AppMessageType::Error, "Can't delete a key here."@)
        } else if self.key_table.selected == 0 {
            self.notified(new, AppMessageType::Error, "No key selected."@)
        } else {
            &&& self.prompted(new, "Confirm Delete:"@)
            &&& new.input.validate_fn is None
            &&& new.input.ty is Choice
            &&& views(new.input.ty->Choice_0.items@) == seq!["No"@, "Yes"@]
            &&& new.input.ty->Choice_0.selected == 0
            &&& match new.input.confirm_fn {
                Some(InputConfirm::DeleteKey { name }) => name@ == self.children()[
                    self.key_table.selected as int],
                _ => false,
            }
        }
    }

    /// Starts deleting the selected key and all below it: asks to confirm.
    pub fn delete_key(&mut self)
        requires
            old(self).wf(),
        ensures
            final(self).wf(),
            old(self).delete_key_post(final(self)),
    {
        proof {
            reveal_strlit("Can't delete a key here.");
            reveal_strlit("No key selected.");
            reveal_strlit("Confirm Delete:");
        }
        let n = self.key_states.len();
        if n == 0 {
            self.set_message(AppMessage::error("Can't delete a key here."));
            return ;
        }
        let selection = self.key_table.selected;
        if selection == 0 {
            self.set_message(AppMessage::error("No key selected."));
            return ;
        }
        let current_name = self.key_states[n - 1].subkeys[selection].clone();
        let mut choices: Vec<String> = Vec::new();
        choices.push("No".to_owned());
        choices.push("Yes".to_owned());
        assert(views(choices@) =~= seq!["No"@, "Yes"@]);
        self.input.label = "Confirm Delete:".to_owned();
        self.set_choice_input(choices, InputConfirm::DeleteKey { name: current_name });
    }

    /// The kind of a value is not changed from the session: it stays as it is.
    pub fn change_type(&mut self)
        ensures
            *final(self) == *old(self),
    {
    }

    /// The data of a value is not changed from the session: it stays as it is.
    pub fn change_data(&mut self)
        ensures
            *final(self) == *old(self),
    {
    }

    /// Values are not deleted from the session: it stays as it is.
    pub fn delete_value(&mut self)
        ensures
            *final(self) == *old(self),
    {
    }

    /// Starts creating an entry of the active pane: a key or a value.
    pub fn create(&mut self)
        requires
            old(self).wf(),
        ensures
            final(self).wf(),
            match old(self).view_state {
                ViewState::Keys => old(self).new_key_post(final(self)),
                ViewState::Values => old(self).new_value_post(final(self)),
                _ => *final(self) == *old(self),
            },
    {
        match self.view_state {
            ViewState::Keys => self.new_key(),
            ViewState::Values => self.new_value(),
            _ => {},
        }
    }

    /// Starts renaming the selected entry of the active pane.
    pub fn rename(&mut self)
        requires
            old(self).wf(),
        ensures
            final(self).wf(),
            match old(self).view_state {
                ViewState::Keys => old(self).rename_key_post(final(self)),
                _ => *final(self) == *old(self),
            },
    {
        match self.view_state {
            ViewState::Keys => self.rename_key(),
            ViewState::Values => self.rename_value(),
            _ => {},
        }
    }

    /// Starts deleting the selected entry of the active pane.
    pub fn delete(&mut self)
        requires
            old(self).wf(),
        ensures
            final(self).wf(),
            match old(self).view_state {
                ViewState::Keys => old(self).delete_key_post(final(self)),
                _ => *final(self) == *old(self),
            },
    {
        match self.view_state {
            ViewState::Keys => self.delete_key(),
            ViewState::Values => self.delete_value(),
            _ => {},
        }
    }
}

/// Opening a node and then taking the way up brings the stack, the listing
/// and the breadcrumb back to where they were.
pub proof fn lemma_open_then_up<H>(a: AppContext<H>, b: AppContext<H>, c: AppContext<H>)
    requires
        b.frames().drop_last() == a.frames(),
        b.depth() == a.depth() + 1,
        c.frames() == b.frames().drop_last(),
        b.root_label() == a.root_label(),
        b.root_children() == a.root_children(),
        c.root_label() == b.root_label(),
        c.root_children() == b.root_children(),
    ensures
        c.frames() == a.frames(),
        c.depth() == a.depth(),
        c.children() == a.children(),
        c.path() == a.path(),
        a.depth() == 0 ==> c.depth() == 0 && c.path() == a.root_label(),
{
    assert(c.key_states@ == a.key_states@);
}

/// A key created in a sorted listing keeps it sorted, and the cursor lands on it.
pub proof fn lemma_created_key_sorted<H>(a: AppContext<H>, b: AppContext<H>, request: StoreRequest)
    requires
        request is CreateKey,
        sorted_from(a.children(), 1),
        a.request_applied(&b, request),
    ensures
        sorted_from(b.children(), 1),
        b.children()[b.key_table.selected as int] == request->CreateKey_name@,
{
    let name = request->CreateKey_name@;
    let p = choose|p: int|
        {
            &&& is_sorted_position(a.children(), 1, name, p)
            &&& #[trigger] b.children() == a.children().insert(p, name)
            &&& b.key_table.selected == p
        };
    lemma_sorted_insert(a.children(), 1, name, p);
}

/// A value is created in three prompts: confirming its name and then its kind
/// each open the next prompt and change nothing in the store, and confirming
/// its data closes the session, once.
pub proof fn lemma_staged_value_creation<H>(
    s0: AppContext<H>,
    s1: AppContext<H>,
    s2: AppContext<H>,
    s3: AppContext<H>,
    r1: Option<StoreRequest>,
    r2: Option<StoreRequest>,
    r3: Option<StoreRequest>,
)
    requires
        s0.view_state is Input,
        s0.input.confirm_fn == Some(InputConfirm::NewValue),
        input_accepted(s0.input),
        s0.confirm_post(&s1, r1),
        s1.confirm_post(&s2, r2),
        s2.confirm_post(&s3, r3),
    ensures
        s1.view_state == s0.view_state,
        s2.view_state == s0.view_state,
        s3.view_state == restored(s0.view_state->Input_0),
        !(s3.view_state is Input),
        r1 is None && r2 is None && r3 is None,
        s3.input.confirm_fn is None,
        s3.frames() == s0.frames(),
        s3.message == s0.message,
        s1.key_table == s0.key_table && s2.key_table == s0.key_table && s3.key_table
            == s0.key_table,
        s1.value_table == s0.value_table && s2.value_table == s0.value_table && s3.value_table
            == s0.value_table,
{
    let text = confirmed_text(s0.input);
    assert(s1.asks_type(text));
    let t1 = confirmed_text(s1.input);
    assert(s2.asks_data(text, type_of_label(t1)));
}

/// Once the store's values for the selected child are memoized, the next
/// look at them asks the store nothing.
pub proof fn lemma_memoized_lookup<H>(a: AppContext<H>, b: AppContext<H>, values: Seq<NamedValue>)
    requires
        a.depth() > 0,
        a.needs_fetch(),
        b.cached(a.selected_child()->0) == if a.depth() > 0 && a.cached(
            a.selected_child()->0,
        ) is None {
            Some(values)
        } else {
            a.cached(a.selected_child()->0)
        },
        b.depth() == a.depth(),
        b.children() == a.children(),
        b.key_table == a.key_table,
    ensures
        !b.needs_fetch(),
        b.values() == Some(values),
{
}

/// `name` stands in a listing after the way up.
pub open spec fn listed(children: Seq<Seq<char>>, name: Seq<char>) -> bool {
    exists|j: int| 1 <= j < children.len() && #[trigger] children[j] == name
}

/// Replacing the top frame by a valid one keeps every frame valid.
proof fn lemma_top_replaced_wf<H>(before: Seq<KeyState<H>>, after: Seq<KeyState<H>>)
    requires
        before.len() > 0,
        after.len() == before.len(),
        after.drop_last() == before.drop_last(),
        forall|i: int| 0 <= i < before.len() ==> (#[trigger] before[i]).wf(),
        after.last().wf(),
    ensures
        forall|i: int| 0 <= i < after.len() ==> (#[trigger] after[i]).wf(),
{
    assert forall|i: int| 0 <= i < after.len() implies (#[trigger] after[i]).wf() by {
        if i + 1 < after.len() {
            assert(after[i] == after.drop_last()[i]);
            assert(before[i] == before.drop_last()[i]);
        }
    }
}

/// The notice for a change that the store made.
pub open spec fn request_success_text(r: StoreRequest) -> Seq<char> {
    match r {
        StoreRequest::CreateKey { .. } => "New key successfully created."@,
        StoreRequest::RenameKey { .. } => "The key has been successfully renamed."@,
        StoreRequest::DeleteKey { .. } => "The key has been successfully deleted."@,
    }
}

/// The words before the store's own message when a change failed.
pub open spec fn request_error_prefix(r: StoreRequest) -> Seq<char> {
    match r {
        StoreRequest::CreateKey { .. } => "Error when creating a new key: "@,
        StoreRequest::RenameKey { .. } => "Error when renaming the key: "@,
        StoreRequest::DeleteKey { .. } => "Error when deleting the key: "@,
    }
}

/// The pane that a prompt or notice opened now would go back to.
pub open spec fn remembered_pane(v: ViewState) -> LastSelected {
    match v {
        ViewState::Input(l) => l,
        ViewState::Message(l) => l,
        v => pane_of(v),
    }
}

} // verus!
