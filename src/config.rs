//! The pin table: which physical pins the board uses, under which alias and
//! for which functional group, and which of them have been claimed.
//!
//! A claim is the only admission control between the parts of the firmware
//! that drive pins: a pin is claimed at most once and never released.

use vstd::prelude::*;
use crate::text::{same_ignoring_case, str_eq_ignore_case};

verus! {

/// Highest physical pin number of the chip.
pub const MAX_GPIO: u8 = 29;
/// Number of physical pins of the chip.
pub const PINOUT_CAPACITY: usize = 30;

/// Failures of the pin table.
#[derive(Debug, Clone, Copy, PartialEq, Eq, Structural)]
pub enum ConfigError {
    GpioNotFound,
    AliasNotFound,
    PinAlreadyConfigured,
    OutOfBounds,
}

/// The functional group a pin belongs to; `C1_` groups belong to the second core.
#[allow(non_camel_case_types)]
#[derive(Debug, Clone, Copy, PartialEq, Eq, Structural)]
pub enum Group {
    Reserved,
    Adc,
    Pwm,
    I2c,
    Spi,
    Uart,
    Inputs,
    Outputs,
    Other,
    C1_Adc,
    C1_Pwm,
    C1_I2c,
    C1_Spi,
    C1_Uart,
    C1_Inputs,
    C1_Outputs,
}

/// A pin number in a definition, or none for a role that is not wired.
#[derive(Debug, Clone, Copy, PartialEq, Eq, Structural)]
pub enum PinId {
    Gpio(u8),
    NA,
}

/// One line of the compiled-in pin definition.
#[derive(Debug, Clone, Copy)]
pub struct Def {
    pub alias: &'static str,
    pub id: PinId,
    pub group: Group,
}

/// A pin of the table, with its ownership flag.
#[derive(Debug)]
pub struct PinDef {
    pub alias: &'static str,
    pub id: u8,
    pub group: Group,
    pub taken: bool,
}

/// The pins of a board.
#[derive(Debug)]
pub struct Config {
    pub pins: Vec<PinDef>,
}

// ------------------------------------------------------------------------
// The model
// ------------------------------------------------------------------------

/// Every wired pin of the definition has a number of the chip, and no number
/// is wired twice.
pub open spec fn valid_definition(defs: Seq<Def>) -> bool {
    &&& forall|i: int| 0 <= i < defs.len() ==> match #[trigger] defs[i].id {
        PinId::Gpio(n) => n <= MAX_GPIO,
        PinId::NA => true,
    }
    &&& forall|i: int, j: int|
        0 <= i < j < defs.len() && #[trigger] defs[i].id is Gpio && #[trigger] defs[j].id is Gpio
            ==> defs[i].id != defs[j].id
}

/// The table built from a definition: its wired pins in order, none taken.
pub open spec fn table_of(defs: Seq<Def>) -> Seq<PinDef>
    decreases defs.len(),
{
    if defs.len() == 0 {
        Seq::empty()
    } else {
        let prev = table_of(defs.drop_last());
        let d = defs.last();
        match d.id {
            PinId::Gpio(n) => prev.push(PinDef { alias: d.alias, id: n, group: d.group, taken: false }),
            PinId::NA => prev,
        }
    }
}

/// Pin numbers are of the chip and pairwise distinct.
pub open spec fn distinct_ids(pins: Seq<PinDef>) -> bool {
    &&& forall|i: int| 0 <= i < pins.len() ==> #[trigger] pins[i].id <= MAX_GPIO
    &&& forall|i: int, j: int| 0 <= i < j < pins.len() ==> #[trigger] pins[i].id != #[trigger] pins[j].id
}

/// The numbers of the pins of a group, in table order.
pub open spec fn ids_in_group(pins: Seq<PinDef>, group: Group) -> Seq<u8>
    decreases pins.len(),
{
    if pins.len() == 0 {
        Seq::empty()
    } else {
        let prev = ids_in_group(pins.drop_last(), group);
        if pins.last().group == group {
            prev.push(pins.last().id)
        } else {
            prev
        }
    }
}

/// Index of the pin numbered `id`.
pub open spec fn index_of_id(pins: Seq<PinDef>, id: u8) -> Option<int> {
    if exists|i: int| 0 <= i < pins.len() && pins[i].id == id {
        Some(choose|i: int| 0 <= i < pins.len() && pins[i].id == id)
    } else {
        None
    }
}

/// Index of the first pin whose alias equals `alias`, ignoring ASCII case.
pub open spec fn index_of_alias(pins: Seq<PinDef>, alias: Seq<char>) -> Option<int> {
    if exists|i: int| 0 <= i < pins.len() && same_ignoring_case(pins[i].alias@, alias) {
        Some(
            choose|i: int|
                0 <= i < pins.len() && same_ignoring_case(pins[i].alias@, alias) && forall|j: int|
                    0 <= j < i ==> !same_ignoring_case(#[trigger] pins[j].alias@, alias),
        )
    } else {
        None
    }
}

/// The table after claiming pin `id`, and whether the claim was granted.
pub open spec fn claim(pins: Seq<PinDef>, id: u8) -> (Seq<PinDef>, bool) {
    match index_of_id(pins, id) {
        Some(i) => if pins[i].taken {
            (pins, false)
        } else {
            (pins.update(i, PinDef { taken: true, ..pins[i] }), true)
        },
        None => (pins, false),
    }
}

impl Config {
    pub open spec fn wf(&self) -> bool {
        distinct_ids(self.pins@)
    }
}


proof fn lemma_index_of_id(pins: Seq<PinDef>, id: u8, i: int)
    requires
        distinct_ids(pins),
        0 <= i < pins.len(),
        pins[i].id == id,
    ensures
        index_of_id(pins, id) == Some(i),
{
    let c = choose|k: int| 0 <= k < pins.len() && pins[k].id == id;
    assert(0 <= c < pins.len() && pins[c].id == id);
    if c != i {
        if c < i {
            assert(pins[c].id != pins[i].id);
        } else {
            assert(pins[i].id != pins[c].id);
        }
    }
}

proof fn lemma_index_of_alias(pins: Seq<PinDef>, alias: Seq<char>, i: int)
    requires
        0 <= i < pins.len(),
        same_ignoring_case(pins[i].alias@, alias),
        forall|j: int| 0 <= j < i ==> !same_ignoring_case(#[trigger] pins[j].alias@, alias),
    ensures
        index_of_alias(pins, alias) == Some(i),
{
    let c = choose|k: int|
        0 <= k < pins.len() && same_ignoring_case(pins[k].alias@, alias) && forall|j: int|
            0 <= j < k ==> !same_ignoring_case(#[trigger] pins[j].alias@, alias);
    assert(0 <= c < pins.len() && same_ignoring_case(pins[c].alias@, alias));
    if c < i {
        assert(!same_ignoring_case(pins[c].alias@, alias));
    } else if c > i {
        assert(!same_ignoring_case(pins[i].alias@, alias));
    }
}

proof fn lemma_claim_keeps_ids(pins: Seq<PinDef>, id: u8)
    requires
        distinct_ids(pins),
    ensures
        distinct_ids(claim(pins, id).0),
        claim(pins, id).0.len() == pins.len(),
        forall|k: int| 0 <= k < pins.len() ==> #[trigger] claim(pins, id).0[k].id == pins[k].id,
        forall|k: int| 0 <= k < pins.len() ==> pins[k].taken ==> #[trigger] claim(pins, id).0[k].taken,
{
    let after = claim(pins, id).0;
    assert forall|a: int, b: int| 0 <= a < b < after.len() implies #[trigger] after[a].id != #[trigger] after[b].id by {
        assert(pins[a].id != pins[b].id);
    }
    assert forall|a: int| 0 <= a < after.len() implies #[trigger] after[a].id <= MAX_GPIO by {
        assert(pins[a].id <= MAX_GPIO);
    }
}

/// A pin of the table that nobody holds is granted to the first claim, and
/// every later claim of it is refused: the table never hands one pin out
/// twice.
pub proof fn lemma_claim_once(pins: Seq<PinDef>, i: int)
    requires
        distinct_ids(pins),
        0 <= i < pins.len(),
        !pins[i].taken,
    ensures
        claim(pins, pins[i].id).1,
        !claim(claim(pins, pins[i].id).0, pins[i].id).1,
{
    let id = pins[i].id;
    lemma_index_of_id(pins, id, i);
    lemma_claim_keeps_ids(pins, id);
    let after = claim(pins, id).0;
    lemma_index_of_id(after, id, i);
}

/// Claiming one pin neither grants nor refuses a claim of another: the
/// outcome of claiming a pin does not depend on which other pins were
/// claimed before it.
pub proof fn lemma_claim_independent(pins: Seq<PinDef>, id: u8, other: u8)
    requires
        distinct_ids(pins),
        id != other,
    ensures
        claim(claim(pins, other).0, id).1 == claim(pins, id).1,
{
    lemma_claim_keeps_ids(pins, other);
    let after = claim(pins, other).0;
    match index_of_id(pins, id) {
        Some(i) => {
            lemma_index_of_id(pins, id, i);
            lemma_index_of_id(after, id, i);
            match index_of_id(pins, other) {
                Some(j) => {
                    lemma_index_of_id(pins, other, j);
                    assert(i != j);
                },
                None => {},
            }
        },
        None => {
            if index_of_id(after, id) is Some {
                let k = index_of_id(after, id)->0;
                lemma_index_of_id(after, id, k);
                assert(pins[k].id == id);
            }
        },
    }
}

/// A table of distinct pin numbers of the chip has at most one entry per
/// pin of the chip.
pub proof fn lemma_table_fits(pins: Seq<PinDef>)
    requires
        distinct_ids(pins),
    ensures
        pins.len() <= PINOUT_CAPACITY,
{
    let ids = pins.map_values(|p: PinDef| p.id as int);
    assert(ids.no_duplicates()) by {
        assert forall|a: int, b: int| 0 <= a < ids.len() && 0 <= b < ids.len() && a != b implies ids[a] != ids[b] by {
            if a < b {
                assert(pins[a].id != pins[b].id);
            } else {
                assert(pins[b].id != pins[a].id);
            }
        }
    }
    ids.unique_seq_to_set();
    vstd::set_lib::lemma_int_range(0, PINOUT_CAPACITY as int);
    assert(ids.to_set().subset_of(vstd::set_lib::set_int_range(0, PINOUT_CAPACITY as int))) by {
        assert forall|x: int| ids.to_set().contains(x) implies 0 <= x < PINOUT_CAPACITY by {
            let k = choose|k: int| 0 <= k < ids.len() && ids[k] == x;
            assert(pins[k].id <= MAX_GPIO);
        }
    }
    vstd::set_lib::lemma_len_subset(ids.to_set(), vstd::set_lib::set_int_range(0, PINOUT_CAPACITY as int));
}

/// Whether a definition can be turned into a pin table.
pub fn definition_is_valid(defs: &[Def]) -> (r: bool)
    ensures
        r == valid_definition(defs@),
{
    let mut i: usize = 0;
    while i < defs.len()
        invariant
            i <= defs.len(),
            forall|a: int| 0 <= a < i ==> match #[trigger] defs@[a].id {
                PinId::Gpio(n) => n <= MAX_GPIO,
                PinId::NA => true,
            },
            forall|a: int, b: int|
                0 <= a < b < defs.len() && a < i && #[trigger] defs@[a].id is Gpio
                    && #[trigger] defs@[b].id is Gpio ==> defs@[a].id != defs@[b].id,
        decreases defs.len() - i,
    {
        match defs[i].id {
            PinId::Gpio(n) => {
                if n > MAX_GPIO {
                    return false;
                }
                let mut j: usize = i + 1;
                while j < defs.len()
                    invariant
                        i < j <= defs.len(),
                        defs@[i as int].id == PinId::Gpio(n),
                        forall|b: int|
                            i < b < j && #[trigger] defs@[b].id is Gpio ==> defs@[i as int].id
                                != defs@[b].id,
                    decreases defs.len() - j,
                {
                    if defs[j].id == PinId::Gpio(n) {
                        return false;
                    }
                    j += 1;
                }
            },
            PinId::NA => {},
        }
        i += 1;
    }
    true
}

impl Config {
    /// Builds the table from a definition, keeping the wired pins in order.
    /// A definition with a pin number outside the chip, or a number wired
    /// twice, is a build error and is not admitted.
    pub fn new(definition: &[Def]) -> (r: Config)
        requires
            valid_definition(definition@),
        ensures
            r.wf(),
            r.pins@ == table_of(definition@),
            r.pins@.len() <= PINOUT_CAPACITY,
    {
        let mut pins: Vec<PinDef> = Vec::new();
        let ghost mut src: Seq<int> = Seq::empty();
        let mut i: usize = 0;
        while i < definition.len()
            invariant
                i <= definition.len(),
                valid_definition(definition@),
                pins@ == table_of(definition@.take(i as int)),
                src.len() == pins.len(),
                pins.len() <= i,
                forall|k: int|
                    0 <= k < pins.len() ==> 0 <= #[trigger] src[k] < i && definition@[src[k]].id
                        == PinId::Gpio(pins@[k].id),
                distinct_ids(pins@),
            decreases definition.len() - i,
        {
            let d = definition[i];
            proof {
                assert(definition@.take(i + 1).drop_last() == definition@.take(i as int));
            }
            match d.id {
                PinId::Gpio(n) => {
                    proof {
                        assert(definition@[i as int].id is Gpio);
                        assert forall|k: int| 0 <= k < pins.len() implies pins@[k].id != n by {
                            let a = src[k];
                            assert(definition@[a].id is Gpio);
                            assert(definition@[a].id != definition@[i as int].id);
                        }
                    }
                    pins.push(PinDef { alias: d.alias, id: n, group: d.group, taken: false });
                    proof {
                        src = src.push(i as int);
                    }
                },
                PinId::NA => {},
            }
            i += 1;
        }
        proof {
            assert(definition@.take(i as int) == definition@);
            lemma_table_fits(pins@);
        }
        Config { pins }
    }

    fn find_id(&self, id: u8) -> (r: Option<usize>)
        requires
            self.wf(),
        ensures
            match index_of_id(self.pins@, id) {
                Some(i) => r is Some && r->0 as int == i,
                None => r is None,
            },
            r matches Some(i) ==> i < self.pins@.len(),
    {
        let mut i: usize = 0;
        while i < self.pins.len()
            invariant
                self.wf(),
                i <= self.pins.len(),
                forall|k: int| 0 <= k < i ==> self.pins@[k].id != id,
            decreases self.pins.len() - i,
        {
            if self.pins[i].id == id {
                proof {
                    lemma_index_of_id(self.pins@, id, i as int);
                }
                return Some(i);
            }
            i += 1;
        }
        None
    }

    fn find_alias(&self, alias: &str) -> (r: Option<usize>)
        ensures
            match index_of_alias(self.pins@, alias@) {
                Some(i) => r is Some && r->0 as int == i,
                None => r is None,
            },
            r matches Some(i) ==> i < self.pins@.len(),
    {
        let mut i: usize = 0;
        while i < self.pins.len()
            invariant
                i <= self.pins.len(),
                forall|k: int| 0 <= k < i ==> !same_ignoring_case(#[trigger] self.pins@[k].alias@, alias@),
            decreases self.pins.len() - i,
        {
            if str_eq_ignore_case(self.pins[i].alias, alias) {
                proof {
                    lemma_index_of_alias(self.pins@, alias@, i as int);
                }
                return Some(i);
            }
            i += 1;
        }
        None
    }

    /// The pin numbers of a group, in table order.
    pub fn get_group_iter(&self, group: Group) -> (r: Vec<u8>)
        ensures
            r@ == ids_in_group(self.pins@, group),
    {
        let mut r: Vec<u8> = Vec::new();
        let mut i: usize = 0;
        while i < self.pins.len()
            invariant
                i <= self.pins.len(),
                r@ == ids_in_group(self.pins@.take(i as int), group),
            decreases self.pins.len() - i,
        {
            proof {
                assert(self.pins@.take(i + 1).drop_last() == self.pins@.take(i as int));
            }
            if self.pins[i].group == group {
                r.push(self.pins[i].id);
            }
            i += 1;
        }
        proof {
            assert(self.pins@.take(i as int) == self.pins@);
        }
        r
    }

    /// The pin number registered under an alias (ASCII case ignored).
    pub fn get_gpio(&self, alias: &str) -> (r: Result<u8, ConfigError>)
        ensures
            match index_of_alias(self.pins@, alias@) {
                Some(i) => r == Ok::<u8, ConfigError>(self.pins@[i].id),
                None => r == Err::<u8, ConfigError>(ConfigError::AliasNotFound),
            },
    {
        match self.find_alias(alias) {
            Some(i) => Ok(self.pins[i].id),
            None => Err(ConfigError::AliasNotFound),
        }
    }

    /// The alias of pin `id`.
    pub fn get_alias(&self, id: u8) -> (r: Result<&'static str, ConfigError>)
        requires
            self.wf(),
        ensures
            match index_of_id(self.pins@, id) {
                Some(i) => r is Ok && r->Ok_0 == self.pins@[i].alias,
                None => r == Err::<&'static str, ConfigError>(ConfigError::GpioNotFound),
            },
    {
        match self.find_id(id) {
            Some(i) => Ok(self.pins[i].alias),
            None => Err(ConfigError::GpioNotFound),
        }
    }

    /// The table entry of pin `id`.
    pub fn get_pin_def_by_gpio(&self, id: u8) -> (r: Result<&PinDef, ConfigError>)
        requires
            self.wf(),
        ensures
            match index_of_id(self.pins@, id) {
                Some(i) => r is Ok && *r->Ok_0 == self.pins@[i],
                None => r is Err && r->Err_0 == ConfigError::GpioNotFound,
            },
    {
        match self.find_id(id) {
            Some(i) => Ok(&self.pins[i]),
            None => Err(ConfigError::GpioNotFound),
        }
    }

    /// The table entry registered under an alias (ASCII case ignored).
    pub fn get_pin_def_by_alias(&self, alias: &str) -> (r: Result<&PinDef, ConfigError>)
        ensures
            match index_of_alias(self.pins@, alias@) {
                Some(i) => r is Ok && *r->Ok_0 == self.pins@[i],
                None => r is Err && r->Err_0 == ConfigError::AliasNotFound,
            },
    {
        match self.find_alias(alias) {
            Some(i) => Ok(&self.pins[i]),
            None => Err(ConfigError::AliasNotFound),
        }
    }

    /// The group of pin `id`.
    pub fn get_group_type(&self, id: u8) -> (r: Option<Group>)
        requires
            self.wf(),
        ensures
            match index_of_id(self.pins@, id) {
                Some(i) => r == Some(self.pins@[i].group),
                None => r is None,
            },
    {
        match self.find_id(id) {
            Some(i) => Some(self.pins[i].group),
            None => None,
        }
    }

    /// A pin number with its alias: an explicit number wins and its alias is
    /// looked up; otherwise the alias is resolved; with neither, the pin is
    /// not found.
    pub fn get_gpio_alias_pair(&self, gpio: Option<u8>, alias: Option<&str>) -> (r: Result<
        (u8, &'static str),
        ConfigError,
    >)
        requires
            self.wf(),
        ensures
            match gpio {
                Some(id) => match index_of_id(self.pins@, id) {
                    Some(i) => r is Ok && r->Ok_0 == (id, self.pins@[i].alias),
                    None => r is Err && r->Err_0 == ConfigError::GpioNotFound,
                },
                None => match alias {
                    Some(a) => match index_of_alias(self.pins@, a@) {
                        Some(i) => r is Ok && r->Ok_0 == (self.pins@[i].id, self.pins@[i].alias),
                        None => r is Err && r->Err_0 == ConfigError::AliasNotFound,
                    },
                    None => r is Err && r->Err_0 == ConfigError::GpioNotFound,
                },
            },
    {
        if let Some(id) = gpio {
            let a = self.get_alias(id)?;
            Ok((id, a))
        } else if let Some(a) = alias {
            let pin = self.get_pin_def_by_alias(a)?;
            Ok((pin.id, pin.alias))
        } else {
            Err(ConfigError::GpioNotFound)
        }
    }

    /// Claims pin `id` for the caller: granted, with the pin number, when the
    /// pin is in the table and not yet claimed; a granted pin stays claimed.
    pub fn take_pin(&mut self, id: u8) -> (r: Option<u8>)
        requires
            old(self).wf(),
        ensures
            final(self).wf(),
            final(self).pins@ == claim(old(self).pins@, id).0,
            r is Some <==> claim(old(self).pins@, id).1,
            r is Some ==> r == Some(id),
    {
        match self.find_id(id) {
            Some(i) => {
                if self.pins[i].taken {
                    return None;
                }
                let ghost before = self.pins@;
                let p = PinDef {
                    alias: self.pins[i].alias,
                    id: self.pins[i].id,
                    group: self.pins[i].group,
                    taken: true,
                };
                self.pins.set(i, p);
                proof {
                    assert(self.pins@ =~= before.update(i as int, PinDef { taken: true, ..before[i as int] }));
                    assert forall|a: int, b: int| 0 <= a < b < self.pins@.len() implies #[trigger] self.pins@[a].id != #[trigger] self.pins@[b].id by {
                        assert(before[a].id != before[b].id);
                    }
                    assert forall|a: int| 0 <= a < self.pins@.len() implies #[trigger] self.pins@[a].id <= MAX_GPIO by {
                        assert(before[a].id <= MAX_GPIO);
                    }
                }
                Some(id)
            },
            None => None,
        }
    }

    /// Claims the pin registered under an alias.
    pub fn take_pin_by_alias(&mut self, alias: &str) -> (r: Result<u8, ConfigError>)
        requires
            old(self).wf(),
        ensures
            final(self).wf(),
            match index_of_alias(old(self).pins@, alias@) {
                Some(i) => {
                    let id = old(self).pins@[i].id;
                    &&& final(self).pins@ == claim(old(self).pins@, id).0
                    &&& (if claim(old(self).pins@, id).1 {
                        r == Ok::<u8, ConfigError>(id)
                    } else {
                        r == Err::<u8, ConfigError>(ConfigError::PinAlreadyConfigured)
                    })
                },
                None => final(self).pins@ == old(self).pins@ && r == Err::<u8, ConfigError>(
                    ConfigError::AliasNotFound,
                ),
            },
    {
        let id = self.get_pin_def_by_alias(alias)?.id;
        match self.take_pin(id) {
            Some(n) => Ok(n),
            None => Err(ConfigError::PinAlreadyConfigured),
        }
    }
}

} // verus!
