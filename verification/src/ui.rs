//! Editor-facing state and messages: the tab switch, the per-row edit
//! messages with their pick-list option wrappers, the connection dialog
//! state, and the pure handlers that apply edit messages to the model.

use vstd::prelude::*;
use crate::enums::{
    ActionType, AddressPartType, ConditionTest, LogicOperator, MatchType, SizeComparator,
};
use crate::model::{
    Action, Condition, ConnectionProfile, SpAction, SpCondition, view_conditions,
    view_model_actions, view_model_strings,
};
use crate::strutil::{
    chars_to_string, copy_trimmed, push_dec, sp_all_digits, sp_dec, sp_digits_val, sp_trim,
    lemma_digits_val_prefix_le, str_to_string, to_chars,
};
use vstd::string::StrSliceExecFns;

verus! {

broadcast use vstd::string::group_string_axioms;

/// Which editor pane is shown.
#[derive(Debug, Clone, Copy, PartialEq, Eq, Structural)]
pub enum Tab {
    Visual,
    Raw,
}

#[derive(Debug, Clone)]
pub enum AboutMessage {
    Close,
}

#[derive(Debug, Clone)]
pub struct AboutState {
    pub visible: bool,
}

impl Default for AboutState {
    fn default() -> (r: Self)
        ensures
            r.visible == false,
    {
        AboutState { visible: false }
    }
}

/// Pick-list wrapper for a condition's test type.
#[derive(Debug, Clone, Copy, PartialEq, Eq, Structural)]
pub struct ConditionTestOption(pub ConditionTest);

/// Pick-list wrapper for a match type.
#[derive(Debug, Clone, Copy, PartialEq, Eq, Structural)]
pub struct MatchTypeOption(pub MatchType);

/// Pick-list wrapper for an address part.
#[derive(Debug, Clone, Copy, PartialEq, Eq, Structural)]
pub struct AddressPartOption(pub AddressPartType);

/// Pick-list wrapper for a size comparator.
#[derive(Debug, Clone, Copy, PartialEq, Eq, Structural)]
pub struct SizeComparatorOption(pub SizeComparator);

/// Pick-list wrapper for an action type.
#[derive(Debug, Clone, Copy, PartialEq, Eq, Structural)]
pub struct ActionTypeOption(pub ActionType);

/// Pick-list wrapper for a rule's logic operator.
#[derive(Debug, Clone, Copy, PartialEq, Eq, Structural)]
pub struct LogicOption(pub LogicOperator);

#[derive(Debug, Clone)]
pub enum ConditionMessage {
    SetTestType(ConditionTestOption),
    SetMatchType(MatchTypeOption),
    SetAddressPart(AddressPartOption),
    SetSizeComparator(SizeComparatorOption),
    SetHeaders(String),
    SetValue(String),
    Remove,
}

#[derive(Debug, Clone)]
pub enum ActionMessage {
    SetActionType(ActionTypeOption),
    SetArgument(String),
    Remove,
}

#[derive(Debug, Clone)]
pub enum RuleMessage {
    SetName(String),
    SetEnabled(bool),
    SetLogic(LogicOption),
    RemoveRule,
    AddCondition,
    AddAction,
    ConditionMsg(usize, ConditionMessage),
    ActionMsg(usize, ActionMessage),
}

#[derive(Debug, Clone)]
pub enum ScriptListMessage {
    SelectScript(String),
    ActivateScript(String),
    DeactivateScripts,
    DeleteScript(String),
}

#[derive(Debug, Clone)]
pub enum ConnectionMessage {
    SelectProfile(String),
    NewProfile,
    DeleteProfile,
    SetName(String),
    SetHost(String),
    SetPort(String),
    SetUsername(String),
    SetPassword(String),
    ToggleStartTls(bool),
    Connect,
    Cancel,
}

/// The state of the connection dialog.
#[derive(Debug, Clone)]
pub struct ConnectionState {
    pub visible: bool,
    pub profiles: Vec<ConnectionProfile>,
    pub selected_index: Option<usize>,
    pub name: String,
    pub host: String,
    pub port: String,
    pub username: String,
    pub password: String,
    pub use_starttls: bool,
}

impl Default for ConnectionState {
    fn default() -> (r: Self)
        ensures
            r.visible == false,
            r.profiles@.len() == 0,
            r.selected_index is None,
            r.name@ == Seq::<char>::empty(),
            r.host@ == Seq::<char>::empty(),
            r.port@ == "4190"@,
            r.username@ == Seq::<char>::empty(),
            r.password@ == Seq::<char>::empty(),
            r.use_starttls == true,
    {
        ConnectionState {
            visible: false,
            profiles: Vec::new(),
            selected_index: None,
            name: String::new(),
            host: String::new(),
            port: str_to_string("4190"),
            username: String::new(),
            password: String::new(),
            use_starttls: true,
        }
    }
}

/// The `u16` a port string parses to: an optional `+`, then at least one
/// digit, with a value at most 65535.
pub open spec fn sp_parse_u16(s: Seq<char>) -> Option<u16> {
    let body = if s.len() > 0 && s[0] == '+' {
        s.skip(1)
    } else {
        s
    };
    if body.len() == 0 || !sp_all_digits(body) {
        None
    } else if sp_digits_val(body) > 65535 {
        None
    } else {
        Some(sp_digits_val(body) as u16)
    }
}

/// Parse a decimal port number as `str::parse::<u16>` would.
fn parse_u16(s: &str) -> (r: Option<u16>)
    ensures
        r == sp_parse_u16(s@),
{
    let v = to_chars(s);
    let n = v.len();
    let start: usize = if n > 0 && v[0] == '+' {
        1
    } else {
        0
    };
    let ghost body = if s@.len() > 0 && s@[0] == '+' {
        s@.skip(1)
    } else {
        s@
    };
    proof {
        assert(body =~= v@.subrange(start as int, n as int));
    }
    if start >= n {
        return None;
    }
    let mut acc: u32 = 0;
    let mut i = start;
    while i < n
        invariant
            start <= i <= n,
            n == v@.len(),
            v@ == s@,
            body == v@.subrange(start as int, n as int),
            body == (if s@.len() > 0 && s@[0] == '+' {
                s@.skip(1)
            } else {
                s@
            }),
            acc <= 65535,
            acc as int == sp_digits_val(body.take(i - start)),
            sp_all_digits(body.take(i - start)),
        decreases n - i,
    {
        let c = v[i];
        if !('0' <= c && c <= '9') {
            proof {
                assert(body[i - start] == c);
                assert(!sp_all_digits(body));
            }
            return None;
        }
        let d: u32 = (c as u32) - 48;
        let next: u32 = acc * 10 + d;
        proof {
            assert(body.take(i - start + 1).drop_last() =~= body.take(i - start));
            assert(body[i - start] == c);
            assert(sp_digits_val(body.take(i - start + 1)) == acc as int * 10 + (c as int - 48));
        }
        if next > 65535 {
            proof {
                if sp_all_digits(body) {
                    lemma_digits_val_prefix_le(body, i - start + 1);
                    assert(sp_digits_val(body) > 65535);
                }
            }
            return None;
        }
        acc = next;
        proof {
            assert forall|j: int| 0 <= j < i - start + 1 implies '0' <= #[trigger] body.take(
                i - start + 1,
            )[j] && body.take(i - start + 1)[j] <= '9' by {
                if j < i - start {
                    assert(body.take(i - start + 1)[j] == body.take(i - start)[j]);
                }
            }
        }
        i += 1;
    }
    proof {
        assert(body.take(n - start) =~= body);
    }
    Some(acc as u16)
}

impl ConnectionState {
    /// Open the dialog over a profile list, selecting the first profile
    /// if there is one.
    pub fn open(&mut self, profiles: Vec<ConnectionProfile>)
        ensures
            final(self).visible == true,
            final(self).profiles == profiles,
            profiles@.len() == 0 ==> *final(self) == (ConnectionState {
                visible: true,
                profiles: profiles,
                ..*old(self)
            }),
            profiles@.len() > 0 ==> final(self).selected_index == Some(0usize)
                && final(self).name@ == profiles@[0].name@ && final(self).host@
                == profiles@[0].host@ && final(self).port@ == sp_dec(profiles@[0].port as nat)
                && final(self).username@ == profiles@[0].username@ && final(self).use_starttls
                == profiles@[0].use_starttls && final(self).password@ == Seq::<char>::empty(),
    {
        self.profiles = profiles;
        self.visible = true;
        if self.profiles.len() > 0 {
            self.select(0);
        }
    }

    /// Hide the dialog.
    pub fn close(&mut self)
        ensures
            *final(self) == (ConnectionState { visible: false, ..*old(self) }),
    {
        self.visible = false;
    }

    /// Load the fields from the profile at `index`; out-of-range indices
    /// change nothing.
    pub fn select(&mut self, index: usize)
        ensures
            index >= old(self).profiles@.len() ==> *final(self) == *old(self),
            index < old(self).profiles@.len() ==> ({
                let p = old(self).profiles@[index as int];
                final(self).selected_index == Some(index) && final(self).name@ == p.name@
                    && final(self).host@ == p.host@ && final(self).port@ == sp_dec(p.port as nat)
                    && final(self).username@ == p.username@ && final(self).use_starttls
                    == p.use_starttls && final(self).password@ == Seq::<char>::empty()
                    && final(self).visible == old(self).visible && final(self).profiles
                    == old(self).profiles
            }),
    {
        if index < self.profiles.len() {
            let name = self.profiles[index].name.clone();
            let host = self.profiles[index].host.clone();
            let port = self.profiles[index].port;
            let username = self.profiles[index].username.clone();
            let use_starttls = self.profiles[index].use_starttls;
            self.selected_index = Some(index);
            self.name = name;
            self.host = host;
            let mut digits: Vec<char> = Vec::new();
            push_dec(&mut digits, port as usize);
            self.port = chars_to_string(&digits);
            self.username = username;
            self.use_starttls = use_starttls;
            self.password = String::new();
        }
    }

    /// The profile the dialog currently describes: the host stands in for
    /// an empty name, and an unparseable port falls back to 4190.
    pub fn to_profile(&self) -> (r: ConnectionProfile)
        ensures
            r.name@ == if self.name@.len() == 0 {
                self.host@
            } else {
                self.name@
            },
            r.host@ == self.host@,
            r.port == match sp_parse_u16(self.port@) {
                Some(p) => p,
                None => 4190u16,
            },
            r.username@ == self.username@,
            r.use_starttls == self.use_starttls,
    {
        let name = if self.name.as_str().unicode_len() == 0 {
            self.host.clone()
        } else {
            self.name.clone()
        };
        let port = match parse_u16(self.port.as_str()) {
            Some(p) => p,
            None => 4190,
        };
        ConnectionProfile {
            name,
            host: self.host.clone(),
            port,
            username: self.username.clone(),
            use_starttls: self.use_starttls,
        }
    }

    /// The names of the saved profiles, in order.
    fn profile_names(&self) -> (r: Vec<String>)
        ensures
            view_model_strings(r@) =~= self.profiles@.map_values(
                |p: ConnectionProfile| p.name@,
            ),
    {
        let n = self.profiles.len();
        let mut r: Vec<String> = Vec::new();
        let mut i: usize = 0;
        while i < n
            invariant
                i <= n,
                n == self.profiles@.len(),
                r@.len() == i,
                forall|j: int| 0 <= j < i ==> #[trigger] r@[j]@ == self.profiles@[j].name@,
            decreases n - i,
        {
            r.push(self.profiles[i].name.clone());
            i += 1;
        }
        r
    }

    /// The name of the selected profile, if the selection is in range.
    fn selected_name(&self) -> (r: Option<String>)
        ensures
            match self.selected_index {
                Some(i) => if i < self.profiles@.len() {
                    r matches Some(s) && s@ == self.profiles@[i as int].name@
                } else {
                    r is None
                },
                None => r is None,
            },
    {
        match self.selected_index {
            Some(i) => {
                if i < self.profiles.len() {
                    Some(self.profiles[i].name.clone())
                } else {
                    None
                }
            },
            None => None,
        }
    }
}

/// Index of the first comma at or after `i`, or the end of the text.
pub open spec fn sp_comma_pos(s: Seq<char>, i: int) -> int
    decreases s.len() - i,
{
    if i < 0 || i >= s.len() {
        i
    } else if s[i] == ',' {
        i
    } else {
        sp_comma_pos(s, i + 1)
    }
}

/// The comma-separated fields of `s` from index `i` on, each trimmed.
pub open spec fn sp_split_trim(s: Seq<char>, i: int) -> Seq<Seq<char>>
    decreases s.len() - i,
{
    let e = sp_comma_pos(s, i);
    if i < 0 || e < i || e >= s.len() {
        seq![sp_trim(s.subrange(if 0 <= i <= s.len() {
            i
        } else {
            0
        }, s.len() as int))]
    } else {
        seq![sp_trim(s.subrange(i, e))] + sp_split_trim(s, e + 1)
    }
}

proof fn lemma_comma_pos_bounds(s: Seq<char>, i: int)
    requires
        0 <= i <= s.len(),
    ensures
        i <= sp_comma_pos(s, i) <= s.len(),
    decreases s.len() - i,
{
    if i < s.len() && s[i] != ',' {
        lemma_comma_pos_bounds(s, i + 1);
    }
}

/// Split a header list on commas, trimming each field.
fn split_trim(s: &str) -> (r: Vec<String>)
    ensures
        view_model_strings(r@) == sp_split_trim(s@, 0),
{
    let v = to_chars(s);
    let n = v.len();
    let mut r: Vec<String> = Vec::new();
    let mut i: usize = 0;
    loop
        invariant
            i <= n,
            n == v@.len(),
            v@ == s@,
            sp_split_trim(s@, 0) == view_model_strings(r@) + sp_split_trim(s@, i as int),
        decreases n - i,
    {
        proof {
            lemma_comma_pos_bounds(s@, i as int);
        }
        let mut e = i;
        while e < n && v[e] != ','
            invariant
                i <= e <= n,
                n == v@.len(),
                v@ == s@,
                sp_comma_pos(s@, i as int) == sp_comma_pos(s@, e as int),
            decreases n - e,
        {
            e += 1;
        }
        let ghost pre = view_model_strings(r@);
        let field = copy_trimmed(&v, i, e);
        r.push(chars_to_string(&field));
        proof {
            assert(view_model_strings(r@) =~= pre.push(sp_trim(s@.subrange(i as int, e as int))));
        }
        if e >= n {
            proof {
                assert(sp_comma_pos(s@, i as int) == e as int);
                assert(sp_split_trim(s@, i as int) =~= seq![sp_trim(s@.subrange(
                    i as int,
                    s@.len() as int,
                ))]);
                assert(s@.subrange(i as int, e as int) =~= s@.subrange(i as int, s@.len() as int));
                assert(view_model_strings(r@) =~= pre + sp_split_trim(s@, i as int));
                assert(view_model_strings(r@) + Seq::<Seq<char>>::empty() =~= view_model_strings(
                    r@,
                ));
                assert(sp_split_trim(s@, 0) =~= view_model_strings(r@));
            }
            return r;
        }
        proof {
            assert(sp_comma_pos(s@, i as int) == e as int);
            assert(sp_split_trim(s@, i as int) == seq![sp_trim(s@.subrange(i as int, e as int))]
                + sp_split_trim(s@, e + 1));
            assert(view_model_strings(r@) + sp_split_trim(s@, e + 1) =~= pre + sp_split_trim(
                s@,
                i as int,
            ));
        }
        i = e + 1;
    }
}

/// The condition after one edit message.
pub open spec fn sp_apply_condition_msg(c: SpCondition, msg: ConditionMessage) -> SpCondition {
    match msg {
        ConditionMessage::SetTestType(opt) => SpCondition { test_type: opt.0, ..c },
        ConditionMessage::SetMatchType(opt) => SpCondition { match_type: opt.0, ..c },
        ConditionMessage::SetAddressPart(opt) => SpCondition { address_part: opt.0, ..c },
        ConditionMessage::SetSizeComparator(opt) => SpCondition { size_comparator: opt.0, ..c },
        ConditionMessage::SetHeaders(s) => SpCondition { header_names: sp_split_trim(s@, 0), ..c },
        ConditionMessage::SetValue(s) => if c.test_type == ConditionTest::Size {
            SpCondition { size_value: s@, ..c }
        } else {
            SpCondition { keys: seq![s@], ..c }
        },
        ConditionMessage::Remove => c,
    }
}

/// Apply one edit message to the condition at `idx`: `Remove` deletes it,
/// anything else updates one field.
pub fn handle_condition_message(conditions: &mut Vec<Condition>, idx: usize, msg: ConditionMessage)
    requires
        idx < old(conditions)@.len(),
    ensures
        msg matches ConditionMessage::Remove ==> view_conditions(final(conditions)@)
            =~= view_conditions(old(conditions)@).remove(idx as int),
        !(msg matches ConditionMessage::Remove) ==> view_conditions(final(conditions)@)
            =~= view_conditions(old(conditions)@).update(
            idx as int,
            sp_apply_condition_msg(view_conditions(old(conditions)@)[idx as int], msg),
        ),
{
    let ghost cv = view_conditions(old(conditions)@);
    proof {
        assert(cv[idx as int] == old(conditions)@[idx as int]@);
    }
    match msg {
        ConditionMessage::SetTestType(opt) => {
            conditions[idx].test_type = opt.0;
        },
        ConditionMessage::SetMatchType(opt) => {
            conditions[idx].match_type = opt.0;
        },
        ConditionMessage::SetAddressPart(opt) => {
            conditions[idx].address_part = opt.0;
        },
        ConditionMessage::SetSizeComparator(opt) => {
            conditions[idx].size_comparator = opt.0;
        },
        ConditionMessage::SetHeaders(s) => {
            let fields = split_trim(s.as_str());
            conditions[idx].header_names = fields;
        },
        ConditionMessage::SetValue(s) => {
            if conditions[idx].test_type == ConditionTest::Size {
                conditions[idx].size_value = s;
            } else {
                let mut keys: Vec<String> = Vec::new();
                keys.push(s);
                proof {
                    assert(view_model_strings(keys@) =~= seq![keys@[0]@]);
                }
                conditions[idx].keys = keys;
            }
        },
        ConditionMessage::Remove => {
            conditions.remove(idx);
        },
    }
    proof {
        lemma_view_conditions_pointwise(old(conditions)@, conditions@, idx as int);
    }
}

/// Element-wise view equality between an updated and an original
/// condition vector.
proof fn lemma_view_conditions_pointwise(before: Seq<Condition>, after: Seq<Condition>, idx: int)
    ensures
        view_conditions(after).len() == after.len(),
        forall|j: int| 0 <= j < after.len() ==> view_conditions(after)[j] == #[trigger] after[j]@,
        view_conditions(before).len() == before.len(),
        forall|j: int|
            0 <= j < before.len() ==> view_conditions(before)[j] == #[trigger] before[j]@,
{
}

/// The action after one edit message.
pub open spec fn sp_apply_action_msg(a: SpAction, msg: ActionMessage) -> SpAction {
    match msg {
        ActionMessage::SetActionType(opt) => SpAction { action_type: opt.0, ..a },
        ActionMessage::SetArgument(s) => SpAction { argument: s@, ..a },
        ActionMessage::Remove => a,
    }
}

/// Apply one edit message to the action at `idx`: `Remove` deletes it,
/// anything else updates one field.
pub fn handle_action_message(actions: &mut Vec<Action>, idx: usize, msg: ActionMessage)
    requires
        idx < old(actions)@.len(),
    ensures
        msg matches ActionMessage::Remove ==> view_model_actions(final(actions)@)
            =~= view_model_actions(old(actions)@).remove(idx as int),
        !(msg matches ActionMessage::Remove) ==> view_model_actions(final(actions)@)
            =~= view_model_actions(old(actions)@).update(
            idx as int,
            sp_apply_action_msg(view_model_actions(old(actions)@)[idx as int], msg),
        ),
{
    let ghost av = view_model_actions(old(actions)@);
    proof {
        assert(av[idx as int] == old(actions)@[idx as int]@);
    }
    match msg {
        ActionMessage::SetActionType(opt) => {
            actions[idx].action_type = opt.0;
        },
        ActionMessage::SetArgument(s) => {
            actions[idx].argument = s;
        },
        ActionMessage::Remove => {
            actions.remove(idx);
        },
    }
    proof {
        lemma_view_actions_pointwise(old(actions)@, actions@);
    }
}

/// Element-wise view equality for action vectors.
proof fn lemma_view_actions_pointwise(before: Seq<Action>, after: Seq<Action>)
    ensures
        view_model_actions(after).len() == after.len(),
        forall|j: int|
            0 <= j < after.len() ==> view_model_actions(after)[j] == #[trigger] after[j]@,
        view_model_actions(before).len() == before.len(),
        forall|j: int|
            0 <= j < before.len() ==> view_model_actions(before)[j] == #[trigger] before[j]@,
{
}

} // verus!
