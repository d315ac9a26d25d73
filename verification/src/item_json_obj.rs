//! The item record: one piece of content and its optional interaction
//! behaviors.  Validation is strict: every field must be declared by the
//! schema, required fields must be present, and absent optional fields
//! receive their documented defaults (`stack_size` is 1; a right-click
//! cooldown is 32 with `reset_on_release` set).

use vstd::prelude::*;
use vstd::string::*;

use crate::json::{Json, field_lookup, keys_in, find_field, str_eq_exec, first_unknown_key};
use crate::locate::opt_view;

verus! {

/// How many of an item one inventory slot can hold: a positive count.
#[derive(Debug)]
pub struct StackSize(pub u32);

impl View for StackSize {
    type V = u32;

    open spec fn view(&self) -> u32 {
        self.0
    }
}

impl Default for StackSize {
    /// An item stacks to 1 unless its file says otherwise.
    fn default() -> (r: Self)
        ensures
            r@ == 1u32,
    {
        StackSize(1)
    }
}

/// The cooldown a right-click interaction imposes.
#[derive(Debug)]
pub struct RightClickCooldown {
    pub value: u32,
    pub reset_on_release: bool,
}

/// The mathematical content of a cooldown.
pub struct CooldownV {
    pub value: u32,
    pub reset_on_release: bool,
}

impl View for RightClickCooldown {
    type V = CooldownV;

    open spec fn view(&self) -> CooldownV {
        CooldownV { value: self.value, reset_on_release: self.reset_on_release }
    }
}

impl Default for RightClickCooldown {
    /// The documented default cooldown: 32, resetting on release.
    fn default() -> (r: Self)
        ensures
            r@ == (CooldownV { value: 32u32, reset_on_release: true }),
    {
        Self { value: 32, reset_on_release: true }
    }
}

/// The consume behavior: how long consuming takes and which event it fires.
#[derive(Debug)]
pub struct Consume {
    pub duration: u32,
    pub trigger: String,
}

/// The mathematical content of a consume behavior.
pub struct ConsumeV {
    pub duration: u32,
    pub trigger: Seq<char>,
}

impl View for Consume {
    type V = ConsumeV;

    open spec fn view(&self) -> ConsumeV {
        ConsumeV { duration: self.duration, trigger: self.trigger@ }
    }
}

/// The right-click behavior: its cooldown and which event it fires.
#[derive(Debug)]
pub struct RightClick {
    pub cooldown: RightClickCooldown,
    pub trigger: String,
}

/// The mathematical content of a right-click behavior.
pub struct RightClickV {
    pub cooldown: CooldownV,
    pub trigger: Seq<char>,
}

impl View for RightClick {
    type V = RightClickV;

    open spec fn view(&self) -> RightClickV {
        RightClickV { cooldown: self.cooldown@, trigger: self.trigger@ }
    }
}

/// An item's optional player-triggered behaviors.  Either, both, or neither
/// may be present.
#[derive(Debug)]
pub struct Interaction {
    pub consume: Option<Consume>,
    pub right_click: Option<RightClick>,
}

/// The mathematical content of an interaction set.
pub struct InteractionV {
    pub consume: Option<ConsumeV>,
    pub right_click: Option<RightClickV>,
}

impl View for Interaction {
    type V = InteractionV;

    open spec fn view(&self) -> InteractionV {
        InteractionV {
            consume: match self.consume {
                Option::Some(c) => Option::Some(c@),
                Option::None => Option::None,
            },
            right_click: match self.right_click {
                Option::Some(c) => Option::Some(c@),
                Option::None => Option::None,
            },
        }
    }
}

/// One validated item record.
#[derive(Debug)]
pub struct ItemJsonObj {
    /// Internal key.
    pub id: String,
    /// In-game display label.
    pub display_name: String,
    pub stack_size: StackSize,
    pub interaction: Option<Interaction>,
}

/// The mathematical content of an item record.
pub struct ItemV {
    pub id: Seq<char>,
    pub display_name: Seq<char>,
    pub stack_size: u32,
    pub interaction: Option<InteractionV>,
}

impl View for ItemJsonObj {
    type V = ItemV;

    open spec fn view(&self) -> ItemV {
        ItemV {
            id: self.id@,
            display_name: self.display_name@,
            stack_size: self.stack_size@,
            interaction: match self.interaction {
                Option::Some(i) => Option::Some(i@),
                Option::None => Option::None,
            },
        }
    }
}

// ---------------------------------------------------------------------------
// The schemas, as predicates over parsed documents.
// ---------------------------------------------------------------------------

pub open spec fn cooldown_allowed_keys() -> Seq<Seq<char>> {
    seq!["value"@, "reset_on_release"@]
}

/// The strict cooldown schema: `value` a `u32` number, `reset_on_release` a
/// boolean, nothing else.
pub open spec fn is_valid_cooldown(j: Json) -> bool {
    &&& j is Obj
    &&& keys_in(j->Obj_0@, cooldown_allowed_keys())
    &&& field_lookup(j->Obj_0@, "value"@) matches Some(Json::Nat(n)) && n <= u32::MAX
    &&& field_lookup(j->Obj_0@, "reset_on_release"@) matches Some(Json::Bool(_))
}

pub open spec fn spec_cooldown_of(j: Json) -> CooldownV
    recommends
        is_valid_cooldown(j),
{
    CooldownV {
        value: field_lookup(j->Obj_0@, "value"@)->Some_0->Nat_0 as u32,
        reset_on_release: field_lookup(j->Obj_0@, "reset_on_release"@)->Some_0->Bool_0,
    }
}

pub open spec fn consume_allowed_keys() -> Seq<Seq<char>> {
    seq!["duration"@, "trigger"@]
}

/// The strict consume schema: `duration` a `u32` number and `trigger` a
/// string, both required, nothing else.
pub open spec fn is_valid_consume(j: Json) -> bool {
    &&& j is Obj
    &&& keys_in(j->Obj_0@, consume_allowed_keys())
    &&& field_lookup(j->Obj_0@, "duration"@) matches Some(Json::Nat(n)) && n <= u32::MAX
    &&& field_lookup(j->Obj_0@, "trigger"@) matches Some(Json::Str(_))
}

pub open spec fn spec_consume_of(j: Json) -> ConsumeV
    recommends
        is_valid_consume(j),
{
    ConsumeV {
        duration: field_lookup(j->Obj_0@, "duration"@)->Some_0->Nat_0 as u32,
        trigger: field_lookup(j->Obj_0@, "trigger"@)->Some_0->Str_0@,
    }
}

pub open spec fn right_click_allowed_keys() -> Seq<Seq<char>> {
    seq!["cooldown"@, "trigger"@]
}

/// The strict right-click schema: `trigger` a string, required; `cooldown`
/// optional, a valid cooldown object when present; nothing else.
pub open spec fn is_valid_right_click(j: Json) -> bool {
    &&& j is Obj
    &&& keys_in(j->Obj_0@, right_click_allowed_keys())
    &&& field_lookup(j->Obj_0@, "trigger"@) matches Some(Json::Str(_))
    &&& match field_lookup(j->Obj_0@, "cooldown"@) {
        Option::None => true,
        Option::Some(c) => is_valid_cooldown(c),
    }
}

pub open spec fn spec_right_click_of(j: Json) -> RightClickV
    recommends
        is_valid_right_click(j),
{
    RightClickV {
        cooldown: match field_lookup(j->Obj_0@, "cooldown"@) {
            Option::None => CooldownV { value: 32u32, reset_on_release: true },
            Option::Some(c) => spec_cooldown_of(c),
        },
        trigger: field_lookup(j->Obj_0@, "trigger"@)->Some_0->Str_0@,
    }
}

pub open spec fn interaction_allowed_keys() -> Seq<Seq<char>> {
    seq!["consume"@, "right_click"@]
}

/// The strict interaction schema: two independent optional behaviors and
/// nothing else; each must be valid when present.
pub open spec fn is_valid_interaction(j: Json) -> bool {
    &&& j is Obj
    &&& keys_in(j->Obj_0@, interaction_allowed_keys())
    &&& match field_lookup(j->Obj_0@, "consume"@) {
        Option::None => true,
        Option::Some(c) => is_valid_consume(c),
    }
    &&& match field_lookup(j->Obj_0@, "right_click"@) {
        Option::None => true,
        Option::Some(c) => is_valid_right_click(c),
    }
}

pub open spec fn spec_interaction_of(j: Json) -> InteractionV
    recommends
        is_valid_interaction(j),
{
    InteractionV {
        consume: match field_lookup(j->Obj_0@, "consume"@) {
            Option::None => Option::None,
            Option::Some(c) => Option::Some(spec_consume_of(c)),
        },
        right_click: match field_lookup(j->Obj_0@, "right_click"@) {
            Option::None => Option::None,
            Option::Some(c) => Option::Some(spec_right_click_of(c)),
        },
    }
}

pub open spec fn item_allowed_keys() -> Seq<Seq<char>> {
    seq!["id"@, "display_name"@, "stack_size"@, "interaction"@]
}

/// The strict item schema: `id` and `display_name` strings, required;
/// `stack_size` optional, a positive `u32` number when present;
/// `interaction` optional, a valid interaction set when present; nothing
/// else.
pub open spec fn is_valid_item(j: Json) -> bool {
    &&& j is Obj
    &&& keys_in(j->Obj_0@, item_allowed_keys())
    &&& field_lookup(j->Obj_0@, "id"@) matches Some(Json::Str(_))
    &&& field_lookup(j->Obj_0@, "display_name"@) matches Some(Json::Str(_))
    &&& match field_lookup(j->Obj_0@, "stack_size"@) {
        Option::None => true,
        Option::Some(v) => v matches Json::Nat(n) && 1 <= n && n <= u32::MAX,
    }
    &&& match field_lookup(j->Obj_0@, "interaction"@) {
        Option::None => true,
        Option::Some(v) => is_valid_interaction(v),
    }
}

pub open spec fn spec_item_of(j: Json) -> ItemV
    recommends
        is_valid_item(j),
{
    ItemV {
        id: field_lookup(j->Obj_0@, "id"@)->Some_0->Str_0@,
        display_name: field_lookup(j->Obj_0@, "display_name"@)->Some_0->Str_0@,
        stack_size: match field_lookup(j->Obj_0@, "stack_size"@) {
            Option::Some(v) => v->Nat_0 as u32,
            Option::None => 1u32,
        },
        interaction: match field_lookup(j->Obj_0@, "interaction"@) {
            Option::None => Option::None,
            Option::Some(v) => Option::Some(spec_interaction_of(v)),
        },
    }
}

// ---------------------------------------------------------------------------
// The validators.
// ---------------------------------------------------------------------------

/// Validates a parsed document against the cooldown schema.
pub fn validate_cooldown(j: &Json) -> (r: Result<RightClickCooldown, String>)
    ensures
        is_valid_cooldown(*j) ==> (r matches Ok(c) && c@ == spec_cooldown_of(*j)),
        !is_valid_cooldown(*j) ==> r is Err,
{
    let fields = match j {
        Json::Obj(fields) => fields,
        _ => {
            return Err(String::from_str("`cooldown` must be a JSON object"));
        },
    };
    assert(j->Obj_0 == *fields);
    let mut i: usize = 0;
    loop
        invariant
            i <= fields@.len(),
            j->Obj_0 == *fields,
            *j is Obj,
            forall|k: int| 0 <= k < i ==> cooldown_allowed_keys().contains(
                #[trigger] fields@[k].0@,
            ),
        ensures
            i == fields@.len(),
            forall|k: int| 0 <= k < fields@.len() ==> cooldown_allowed_keys().contains(
                #[trigger] fields@[k].0@,
            ),
        decreases fields@.len() - i,
    {
        if i == fields.len() {
            break;
        }
        let name = fields[i].0.as_str();
        if str_eq_exec(name, "value") {
            proof {
                assert(cooldown_allowed_keys()[0] == "value"@);
            }
        } else if str_eq_exec(name, "reset_on_release") {
            proof {
                assert(cooldown_allowed_keys()[1] == "reset_on_release"@);
            }
        } else {
            proof {
                assert(!cooldown_allowed_keys().contains(fields@[i as int].0@));
            }
            return Err(String::from_str("unknown field in `cooldown`"));
        }
        i = i + 1;
    }
    let value = match find_field(fields, "value") {
        Some(Json::Nat(n)) => {
            if *n <= u32::MAX as u64 {
                *n as u32
            } else {
                return Err(String::from_str("field `value` is out of range"));
            }
        },
        Some(_) => {
            return Err(String::from_str("field `value` must be an unsigned integer"));
        },
        None => {
            return Err(String::from_str("missing field `value`"));
        },
    };
    let reset_on_release = match find_field(fields, "reset_on_release") {
        Some(Json::Bool(b)) => *b,
        Some(_) => {
            return Err(String::from_str("field `reset_on_release` must be a boolean"));
        },
        None => {
            return Err(String::from_str("missing field `reset_on_release`"));
        },
    };
    Ok(RightClickCooldown { value, reset_on_release })
}

/// Validates a parsed document against the consume schema.
pub fn validate_consume(j: &Json) -> (r: Result<Consume, String>)
    ensures
        is_valid_consume(*j) ==> (r matches Ok(c) && c@ == spec_consume_of(*j)),
        !is_valid_consume(*j) ==> r is Err,
{
    let fields = match j {
        Json::Obj(fields) => fields,
        _ => {
            return Err(String::from_str("`consume` must be a JSON object"));
        },
    };
    assert(j->Obj_0 == *fields);
    let mut i: usize = 0;
    loop
        invariant
            i <= fields@.len(),
            j->Obj_0 == *fields,
            *j is Obj,
            forall|k: int| 0 <= k < i ==> consume_allowed_keys().contains(
                #[trigger] fields@[k].0@,
            ),
        ensures
            i == fields@.len(),
            forall|k: int| 0 <= k < fields@.len() ==> consume_allowed_keys().contains(
                #[trigger] fields@[k].0@,
            ),
        decreases fields@.len() - i,
    {
        if i == fields.len() {
            break;
        }
        let name = fields[i].0.as_str();
        if str_eq_exec(name, "duration") {
            proof {
                assert(consume_allowed_keys()[0] == "duration"@);
            }
        } else if str_eq_exec(name, "trigger") {
            proof {
                assert(consume_allowed_keys()[1] == "trigger"@);
            }
        } else {
            proof {
                assert(!consume_allowed_keys().contains(fields@[i as int].0@));
            }
            return Err(String::from_str("unknown field in `consume`"));
        }
        i = i + 1;
    }
    let duration = match find_field(fields, "duration") {
        Some(Json::Nat(n)) => {
            if *n <= u32::MAX as u64 {
                *n as u32
            } else {
                return Err(String::from_str("field `duration` is out of range"));
            }
        },
        Some(_) => {
            return Err(String::from_str("field `duration` must be an unsigned integer"));
        },
        None => {
            return Err(String::from_str("missing field `duration`"));
        },
    };
    let trigger = match find_field(fields, "trigger") {
        Some(Json::Str(s)) => s.clone(),
        Some(_) => {
            return Err(String::from_str("field `trigger` must be a string"));
        },
        None => {
            return Err(String::from_str("missing field `trigger`"));
        },
    };
    Ok(Consume { duration, trigger })
}

/// Validates a parsed document against the right-click schema, filling in
/// the default cooldown when none is given.
pub fn validate_right_click(j: &Json) -> (r: Result<RightClick, String>)
    ensures
        is_valid_right_click(*j) ==> (r matches Ok(c) && c@ == spec_right_click_of(*j)),
        !is_valid_right_click(*j) ==> r is Err,
{
    let fields = match j {
        Json::Obj(fields) => fields,
        _ => {
            return Err(String::from_str("`right_click` must be a JSON object"));
        },
    };
    assert(j->Obj_0 == *fields);
    let mut i: usize = 0;
    loop
        invariant
            i <= fields@.len(),
            j->Obj_0 == *fields,
            *j is Obj,
            forall|k: int| 0 <= k < i ==> right_click_allowed_keys().contains(
                #[trigger] fields@[k].0@,
            ),
        ensures
            i == fields@.len(),
            forall|k: int| 0 <= k < fields@.len() ==> right_click_allowed_keys().contains(
                #[trigger] fields@[k].0@,
            ),
        decreases fields@.len() - i,
    {
        if i == fields.len() {
            break;
        }
        let name = fields[i].0.as_str();
        if str_eq_exec(name, "cooldown") {
            proof {
                assert(right_click_allowed_keys()[0] == "cooldown"@);
            }
        } else if str_eq_exec(name, "trigger") {
            proof {
                assert(right_click_allowed_keys()[1] == "trigger"@);
            }
        } else {
            proof {
                assert(!right_click_allowed_keys().contains(fields@[i as int].0@));
            }
            return Err(String::from_str("unknown field in `right_click`"));
        }
        i = i + 1;
    }
    let cooldown = match find_field(fields, "cooldown") {
        Some(c) => {
            match validate_cooldown(c) {
                Ok(v) => v,
                Err(e) => {
                    return Err(e);
                },
            }
        },
        None => RightClickCooldown::default(),
    };
    let trigger = match find_field(fields, "trigger") {
        Some(Json::Str(s)) => s.clone(),
        Some(_) => {
            return Err(String::from_str("field `trigger` must be a string"));
        },
        None => {
            return Err(String::from_str("missing field `trigger`"));
        },
    };
    Ok(RightClick { cooldown, trigger })
}

/// Validates a parsed document against the interaction schema.
pub fn validate_interaction(j: &Json) -> (r: Result<Interaction, String>)
    ensures
        is_valid_interaction(*j) ==> (r matches Ok(c) && c@ == spec_interaction_of(*j)),
        !is_valid_interaction(*j) ==> r is Err,
{
    let fields = match j {
        Json::Obj(fields) => fields,
        _ => {
            return Err(String::from_str("`interaction` must be a JSON object"));
        },
    };
    assert(j->Obj_0 == *fields);
    let mut i: usize = 0;
    loop
        invariant
            i <= fields@.len(),
            j->Obj_0 == *fields,
            *j is Obj,
            forall|k: int| 0 <= k < i ==> interaction_allowed_keys().contains(
                #[trigger] fields@[k].0@,
            ),
        ensures
            i == fields@.len(),
            forall|k: int| 0 <= k < fields@.len() ==> interaction_allowed_keys().contains(
                #[trigger] fields@[k].0@,
            ),
        decreases fields@.len() - i,
    {
        if i == fields.len() {
            break;
        }
        let name = fields[i].0.as_str();
        if str_eq_exec(name, "consume") {
            proof {
                assert(interaction_allowed_keys()[0] == "consume"@);
            }
        } else if str_eq_exec(name, "right_click") {
            proof {
                assert(interaction_allowed_keys()[1] == "right_click"@);
            }
        } else {
            proof {
                assert(!interaction_allowed_keys().contains(fields@[i as int].0@));
            }
            return Err(String::from_str("unknown field in `interaction`"));
        }
        i = i + 1;
    }
    let consume = match find_field(fields, "consume") {
        Some(c) => {
            match validate_consume(c) {
                Ok(v) => Some(v),
                Err(e) => {
                    return Err(e);
                },
            }
        },
        None => None,
    };
    let right_click = match find_field(fields, "right_click") {
        Some(c) => {
            match validate_right_click(c) {
                Ok(v) => Some(v),
                Err(e) => {
                    return Err(e);
                },
            }
        },
        None => None,
    };
    Ok(Interaction { consume, right_click })
}

/// Validates a parsed document against the item schema: returns the record
/// exactly when the document is valid, with defaults filled in, and a
/// detail message when it is not.
pub fn validate_item(j: &Json) -> (r: Result<ItemJsonObj, String>)
    ensures
        is_valid_item(*j) ==> (r matches Ok(it) && it@ == spec_item_of(*j)),
        !is_valid_item(*j) ==> r is Err,
{
    let fields = match j {
        Json::Obj(fields) => fields,
        _ => {
            return Err(String::from_str("an item file must hold a JSON object"));
        },
    };
    assert(j->Obj_0 == *fields);
    let mut i: usize = 0;
    loop
        invariant
            i <= fields@.len(),
            j->Obj_0 == *fields,
            *j is Obj,
            forall|k: int| 0 <= k < i ==> item_allowed_keys().contains(#[trigger] fields@[k].0@),
        ensures
            i == fields@.len(),
            forall|k: int| 0 <= k < fields@.len() ==> item_allowed_keys().contains(
                #[trigger] fields@[k].0@,
            ),
        decreases fields@.len() - i,
    {
        if i == fields.len() {
            break;
        }
        let name = fields[i].0.as_str();
        if str_eq_exec(name, "id") {
            proof {
                assert(item_allowed_keys()[0] == "id"@);
            }
        } else if str_eq_exec(name, "display_name") {
            proof {
                assert(item_allowed_keys()[1] == "display_name"@);
            }
        } else if str_eq_exec(name, "stack_size") {
            proof {
                assert(item_allowed_keys()[2] == "stack_size"@);
            }
        } else if str_eq_exec(name, "interaction") {
            proof {
                assert(item_allowed_keys()[3] == "interaction"@);
            }
        } else {
            proof {
                assert(!item_allowed_keys().contains(fields@[i as int].0@));
            }
            return Err(String::from_str("unknown field in item"));
        }
        i = i + 1;
    }
    let id = match find_field(fields, "id") {
        Some(Json::Str(s)) => s.clone(),
        Some(_) => {
            return Err(String::from_str("field `id` must be a string"));
        },
        None => {
            return Err(String::from_str("missing field `id`"));
        },
    };
    let display_name = match find_field(fields, "display_name") {
        Some(Json::Str(s)) => s.clone(),
        Some(_) => {
            return Err(String::from_str("field `display_name` must be a string"));
        },
        None => {
            return Err(String::from_str("missing field `display_name`"));
        },
    };
    let stack_size = match find_field(fields, "stack_size") {
        Some(Json::Nat(n)) => {
            if 1 <= *n && *n <= u32::MAX as u64 {
                StackSize(*n as u32)
            } else {
                return Err(String::from_str("field `stack_size` must be a positive integer"));
            }
        },
        Some(_) => {
            return Err(String::from_str("field `stack_size` must be a positive integer"));
        },
        None => StackSize::default(),
    };
    let interaction = match find_field(fields, "interaction") {
        Some(v) => {
            match validate_interaction(v) {
                Ok(x) => Some(x),
                Err(e) => {
                    return Err(e);
                },
            }
        },
        None => None,
    };
    Ok(ItemJsonObj { id, display_name, stack_size, interaction })
}

// ---------------------------------------------------------------------------
// Which token a schema violation blames, for the location scan.
//
// The blamed token is the first undeclared field, or a declared field whose
// value has the wrong type or range; a nested record's violation is blamed
// within it, except that a record lacking a required field, or one that is
// not an object at all, blames the record itself — its parent then blames
// the field holding it, and at the root no field is blamed.
// ---------------------------------------------------------------------------

pub open spec fn cooldown_blame(j: Json) -> Option<Seq<char>> {
    if !(j is Obj) {
        Option::None
    } else {
        let f = j->Obj_0@;
        match first_unknown_key(f, cooldown_allowed_keys()) {
            Option::Some(k) => Option::Some(k),
            Option::None => {
                if field_lookup(f, "value"@) is None {
                    Option::None
                } else if !(field_lookup(f, "value"@) matches Some(Json::Nat(n)) && n
                    <= u32::MAX) {
                    Option::Some("value"@)
                } else if field_lookup(f, "reset_on_release"@) is None {
                    Option::None
                } else if !(field_lookup(f, "reset_on_release"@) matches Some(Json::Bool(_))) {
                    Option::Some("reset_on_release"@)
                } else {
                    Option::None
                }
            },
        }
    }
}

pub fn cooldown_blame_field(j: &Json) -> (r: Option<String>)
    ensures
        opt_view(r) == cooldown_blame(*j),
{
    let fields = match j {
        Json::Obj(fields) => fields,
        _ => {
            return None;
        },
    };
    assert(j->Obj_0 == *fields);
    let mut i: usize = 0;
    proof {
        assert(fields@.skip(0) =~= fields@);
    }
    loop
        invariant
            i <= fields@.len(),
            j->Obj_0 == *fields,
            *j is Obj,
            first_unknown_key(fields@, cooldown_allowed_keys()) == first_unknown_key(
                fields@.skip(i as int),
                cooldown_allowed_keys(),
            ),
        ensures
            j->Obj_0 == *fields,
            *j is Obj,
            first_unknown_key(fields@, cooldown_allowed_keys()) is None,
        decreases fields@.len() - i,
    {
        if i == fields.len() {
            proof {
                assert(fields@.skip(i as int).len() == 0);
            }
            break;
        }
        proof {
            assert(fields@.skip(i as int)[0] == fields@[i as int]);
        }
        let name = fields[i].0.as_str();
        if str_eq_exec(name, "value") {
            proof {
                assert(cooldown_allowed_keys()[0] == "value"@);
            }
        } else if str_eq_exec(name, "reset_on_release") {
            proof {
                assert(cooldown_allowed_keys()[1] == "reset_on_release"@);
            }
        } else {
            proof {
                assert(!cooldown_allowed_keys().contains(fields@[i as int].0@));
            }
            return Some(fields[i].0.clone());
        }
        proof {
            assert(cooldown_allowed_keys().contains(fields@.skip(i as int)[0].0@));
            assert(fields@.skip(i as int).drop_first() =~= fields@.skip(i as int + 1));
        }
        i = i + 1;
    }
    match find_field(fields, "value") {
        None => {
            return None;
        },
        Some(Json::Nat(n)) => {
            if !(*n <= u32::MAX as u64) {
                return Some(String::from_str("value"));
            }
        },
        Some(_) => {
            return Some(String::from_str("value"));
        },
    }
    match find_field(fields, "reset_on_release") {
        None => {
            return None;
        },
        Some(Json::Bool(_)) => {},
        Some(_) => {
            return Some(String::from_str("reset_on_release"));
        },
    }
    None
}

pub open spec fn consume_blame(j: Json) -> Option<Seq<char>> {
    if !(j is Obj) {
        Option::None
    } else {
        let f = j->Obj_0@;
        match first_unknown_key(f, consume_allowed_keys()) {
            Option::Some(k) => Option::Some(k),
            Option::None => {
                if field_lookup(f, "duration"@) is None {
                    Option::None
                } else if !(field_lookup(f, "duration"@) matches Some(Json::Nat(n)) && n
                    <= u32::MAX) {
                    Option::Some("duration"@)
                } else if field_lookup(f, "trigger"@) is None {
                    Option::None
                } else if !(field_lookup(f, "trigger"@) matches Some(Json::Str(_))) {
                    Option::Some("trigger"@)
                } else {
                    Option::None
                }
            },
        }
    }
}

pub fn consume_blame_field(j: &Json) -> (r: Option<String>)
    ensures
        opt_view(r) == consume_blame(*j),
{
    let fields = match j {
        Json::Obj(fields) => fields,
        _ => {
            return None;
        },
    };
    assert(j->Obj_0 == *fields);
    let mut i: usize = 0;
    proof {
        assert(fields@.skip(0) =~= fields@);
    }
    loop
        invariant
            i <= fields@.len(),
            j->Obj_0 == *fields,
            *j is Obj,
            first_unknown_key(fields@, consume_allowed_keys()) == first_unknown_key(
                fields@.skip(i as int),
                consume_allowed_keys(),
            ),
        ensures
            j->Obj_0 == *fields,
            *j is Obj,
            first_unknown_key(fields@, consume_allowed_keys()) is None,
        decreases fields@.len() - i,
    {
        if i == fields.len() {
            proof {
                assert(fields@.skip(i as int).len() == 0);
            }
            break;
        }
        proof {
            assert(fields@.skip(i as int)[0] == fields@[i as int]);
        }
        let name = fields[i].0.as_str();
        if str_eq_exec(name, "duration") {
            proof {
                assert(consume_allowed_keys()[0] == "duration"@);
            }
        } else if str_eq_exec(name, "trigger") {
            proof {
                assert(consume_allowed_keys()[1] == "trigger"@);
            }
        } else {
            proof {
                assert(!consume_allowed_keys().contains(fields@[i as int].0@));
            }
            return Some(fields[i].0.clone());
        }
        proof {
            assert(consume_allowed_keys().contains(fields@.skip(i as int)[0].0@));
            assert(fields@.skip(i as int).drop_first() =~= fields@.skip(i as int + 1));
        }
        i = i + 1;
    }
    match find_field(fields, "duration") {
        None => {
            return None;
        },
        Some(Json::Nat(n)) => {
            if !(*n <= u32::MAX as u64) {
                return Some(String::from_str("duration"));
            }
        },
        Some(_) => {
            return Some(String::from_str("duration"));
        },
    }
    match find_field(fields, "trigger") {
        None => {
            return None;
        },
        Some(Json::Str(_)) => {},
        Some(_) => {
            return Some(String::from_str("trigger"));
        },
    }
    None
}

pub open spec fn right_click_blame(j: Json) -> Option<Seq<char>> {
    if !(j is Obj) {
        Option::None
    } else {
        let f = j->Obj_0@;
        match first_unknown_key(f, right_click_allowed_keys()) {
            Option::Some(k) => Option::Some(k),
            Option::None => {
                if field_lookup(f, "trigger"@) is None {
                    Option::None
                } else if !(field_lookup(f, "trigger"@) matches Some(Json::Str(_))) {
                    Option::Some("trigger"@)
                } else {
                    match field_lookup(f, "cooldown"@) {
                        Option::Some(c) => if !is_valid_cooldown(c) {
                            match cooldown_blame(c) {
                                Option::Some(n) => Option::Some(n),
                                Option::None => Option::Some("cooldown"@),
                            }
                        } else {
                            Option::None
                        },
                        Option::None => Option::None,
                    }
                }
            },
        }
    }
}

pub fn right_click_blame_field(j: &Json) -> (r: Option<String>)
    ensures
        opt_view(r) == right_click_blame(*j),
{
    let fields = match j {
        Json::Obj(fields) => fields,
        _ => {
            return None;
        },
    };
    assert(j->Obj_0 == *fields);
    let mut i: usize = 0;
    proof {
        assert(fields@.skip(0) =~= fields@);
    }
    loop
        invariant
            i <= fields@.len(),
            j->Obj_0 == *fields,
            *j is Obj,
            first_unknown_key(fields@, right_click_allowed_keys()) == first_unknown_key(
                fields@.skip(i as int),
                right_click_allowed_keys(),
            ),
        ensures
            j->Obj_0 == *fields,
            *j is Obj,
            first_unknown_key(fields@, right_click_allowed_keys()) is None,
        decreases fields@.len() - i,
    {
        if i == fields.len() {
            proof {
                assert(fields@.skip(i as int).len() == 0);
            }
            break;
        }
        proof {
            assert(fields@.skip(i as int)[0] == fields@[i as int]);
        }
        let name = fields[i].0.as_str();
        if str_eq_exec(name, "cooldown") {
            proof {
                assert(right_click_allowed_keys()[0] == "cooldown"@);
            }
        } else if str_eq_exec(name, "trigger") {
            proof {
                assert(right_click_allowed_keys()[1] == "trigger"@);
            }
        } else {
            proof {
                assert(!right_click_allowed_keys().contains(fields@[i as int].0@));
            }
            return Some(fields[i].0.clone());
        }
        proof {
            assert(right_click_allowed_keys().contains(fields@.skip(i as int)[0].0@));
            assert(fields@.skip(i as int).drop_first() =~= fields@.skip(i as int + 1));
        }
        i = i + 1;
    }
    match find_field(fields, "trigger") {
        None => {
            return None;
        },
        Some(Json::Str(_)) => {},
        Some(_) => {
            return Some(String::from_str("trigger"));
        },
    }
    match find_field(fields, "cooldown") {
        Some(c) => {
            match validate_cooldown(c) {
                Ok(_) => None,
                Err(_) => {
                    match cooldown_blame_field(c) {
                        Some(n) => Some(n),
                        None => Some(String::from_str("cooldown")),
                    }
                },
            }
        },
        None => None,
    }
}

pub open spec fn interaction_blame(j: Json) -> Option<Seq<char>> {
    if !(j is Obj) {
        Option::None
    } else {
        let f = j->Obj_0@;
        match first_unknown_key(f, interaction_allowed_keys()) {
            Option::Some(k) => Option::Some(k),
            Option::None => {
                if field_lookup(f, "consume"@) matches Some(c) && !is_valid_consume(c) {
                    match consume_blame(field_lookup(f, "consume"@)->Some_0) {
                        Option::Some(n) => Option::Some(n),
                        Option::None => Option::Some("consume"@),
                    }
                } else if field_lookup(f, "right_click"@) matches Some(c)
                    && !is_valid_right_click(c) {
                    match right_click_blame(field_lookup(f, "right_click"@)->Some_0) {
                        Option::Some(n) => Option::Some(n),
                        Option::None => Option::Some("right_click"@),
                    }
                } else {
                    Option::None
                }
            },
        }
    }
}

pub fn interaction_blame_field(j: &Json) -> (r: Option<String>)
    ensures
        opt_view(r) == interaction_blame(*j),
{
    let fields = match j {
        Json::Obj(fields) => fields,
        _ => {
            return None;
        },
    };
    assert(j->Obj_0 == *fields);
    let mut i: usize = 0;
    proof {
        assert(fields@.skip(0) =~= fields@);
    }
    loop
        invariant
            i <= fields@.len(),
            j->Obj_0 == *fields,
            *j is Obj,
            first_unknown_key(fields@, interaction_allowed_keys()) == first_unknown_key(
                fields@.skip(i as int),
                interaction_allowed_keys(),
            ),
        ensures
            j->Obj_0 == *fields,
            *j is Obj,
            first_unknown_key(fields@, interaction_allowed_keys()) is None,
        decreases fields@.len() - i,
    {
        if i == fields.len() {
            proof {
                assert(fields@.skip(i as int).len() == 0);
            }
            break;
        }
        proof {
            assert(fields@.skip(i as int)[0] == fields@[i as int]);
        }
        let name = fields[i].0.as_str();
        if str_eq_exec(name, "consume") {
            proof {
                assert(interaction_allowed_keys()[0] == "consume"@);
            }
        } else if str_eq_exec(name, "right_click") {
            proof {
                assert(interaction_allowed_keys()[1] == "right_click"@);
            }
        } else {
            proof {
                assert(!interaction_allowed_keys().contains(fields@[i as int].0@));
            }
            return Some(fields[i].0.clone());
        }
        proof {
            assert(interaction_allowed_keys().contains(fields@.skip(i as int)[0].0@));
            assert(fields@.skip(i as int).drop_first() =~= fields@.skip(i as int + 1));
        }
        i = i + 1;
    }
    match find_field(fields, "consume") {
        Some(c) => {
            match validate_consume(c) {
                Ok(_) => {},
                Err(_) => {
                    return match consume_blame_field(c) {
                        Some(n) => Some(n),
                        None => Some(String::from_str("consume")),
                    };
                },
            }
        },
        None => {},
    }
    match find_field(fields, "right_click") {
        Some(c) => {
            match validate_right_click(c) {
                Ok(_) => None,
                Err(_) => {
                    match right_click_blame_field(c) {
                        Some(n) => Some(n),
                        None => Some(String::from_str("right_click")),
                    }
                },
            }
        },
        None => None,
    }
}

pub open spec fn item_blame(j: Json) -> Option<Seq<char>> {
    if !(j is Obj) {
        Option::None
    } else {
        let f = j->Obj_0@;
        match first_unknown_key(f, item_allowed_keys()) {
            Option::Some(k) => Option::Some(k),
            Option::None => {
                if field_lookup(f, "id"@) is None {
                    Option::None
                } else if !(field_lookup(f, "id"@) matches Some(Json::Str(_))) {
                    Option::Some("id"@)
                } else if field_lookup(f, "display_name"@) is None {
                    Option::None
                } else if !(field_lookup(f, "display_name"@) matches Some(Json::Str(_))) {
                    Option::Some("display_name"@)
                } else if !(match field_lookup(f, "stack_size"@) {
                    Option::None => true,
                    Option::Some(v) => v matches Json::Nat(n) && 1 <= n && n <= u32::MAX,
                }) {
                    Option::Some("stack_size"@)
                } else if field_lookup(f, "interaction"@) matches Some(v)
                    && !is_valid_interaction(v) {
                    match interaction_blame(field_lookup(f, "interaction"@)->Some_0) {
                        Option::Some(n) => Option::Some(n),
                        Option::None => Option::Some("interaction"@),
                    }
                } else {
                    Option::None
                }
            },
        }
    }
}

pub fn item_blame_field(j: &Json) -> (r: Option<String>)
    ensures
        opt_view(r) == item_blame(*j),
{
    let fields = match j {
        Json::Obj(fields) => fields,
        _ => {
            return None;
        },
    };
    assert(j->Obj_0 == *fields);
    let mut i: usize = 0;
    proof {
        assert(fields@.skip(0) =~= fields@);
    }
    loop
        invariant
            i <= fields@.len(),
            j->Obj_0 == *fields,
            *j is Obj,
            first_unknown_key(fields@, item_allowed_keys()) == first_unknown_key(
                fields@.skip(i as int),
                item_allowed_keys(),
            ),
        ensures
            j->Obj_0 == *fields,
            *j is Obj,
            first_unknown_key(fields@, item_allowed_keys()) is None,
        decreases fields@.len() - i,
    {
        if i == fields.len() {
            proof {
                assert(fields@.skip(i as int).len() == 0);
            }
            break;
        }
        proof {
            assert(fields@.skip(i as int)[0] == fields@[i as int]);
        }
        let name = fields[i].0.as_str();
        if str_eq_exec(name, "id") {
            proof {
                assert(item_allowed_keys()[0] == "id"@);
            }
        } else if str_eq_exec(name, "display_name") {
            proof {
                assert(item_allowed_keys()[1] == "display_name"@);
            }
        } else if str_eq_exec(name, "stack_size") {
            proof {
                assert(item_allowed_keys()[2] == "stack_size"@);
            }
        } else if str_eq_exec(name, "interaction") {
            proof {
                assert(item_allowed_keys()[3] == "interaction"@);
            }
        } else {
            proof {
                assert(!item_allowed_keys().contains(fields@[i as int].0@));
            }
            return Some(fields[i].0.clone());
        }
        proof {
            assert(item_allowed_keys().contains(fields@.skip(i as int)[0].0@));
            assert(fields@.skip(i as int).drop_first() =~= fields@.skip(i as int + 1));
        }
        i = i + 1;
    }
    match find_field(fields, "id") {
        None => {
            return None;
        },
        Some(Json::Str(_)) => {},
        Some(_) => {
            return Some(String::from_str("id"));
        },
    }
    match find_field(fields, "display_name") {
        None => {
            return None;
        },
        Some(Json::Str(_)) => {},
        Some(_) => {
            return Some(String::from_str("display_name"));
        },
    }
    match find_field(fields, "stack_size") {
        None => {},
        Some(Json::Nat(n)) => {
            if !(1 <= *n && *n <= u32::MAX as u64) {
                return Some(String::from_str("stack_size"));
            }
        },
        Some(_) => {
            return Some(String::from_str("stack_size"));
        },
    }
    match find_field(fields, "interaction") {
        Some(v) => {
            match validate_interaction(v) {
                Ok(_) => None,
                Err(_) => {
                    match interaction_blame_field(v) {
                        Some(n) => Some(n),
                        None => Some(String::from_str("interaction")),
                    }
                },
            }
        },
        None => None,
    }
}

} // verus!
