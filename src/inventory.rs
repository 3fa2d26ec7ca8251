//! The seven resource kinds and the agent's counts of them.
use vstd::prelude::*;
use vstd::string::*;

use crate::error::ClientError;
use crate::text::{
    all_digits, chars_of, digits_value, equals_text, parse_digits, split_chars, split_on,
    split_words, views, words,
};

verus! {

/// A kind of item that lies on tiles and can be carried.
#[derive(Debug, Clone, Copy, PartialEq, Eq, Hash, Structural)]
pub enum Resource {
    Food,
    Linemate,
    Deraumere,
    Sibur,
    Mendiane,
    Phiras,
    Thystame,
}

/// The protocol's name of `r`.
pub open spec fn resource_name(r: Resource) -> Seq<char> {
    match r {
        Resource::Food => "food"@,
        Resource::Linemate => "linemate"@,
        Resource::Deraumere => "deraumere"@,
        Resource::Sibur => "sibur"@,
        Resource::Mendiane => "mendiane"@,
        Resource::Phiras => "phiras"@,
        Resource::Thystame => "thystame"@,
    }
}

/// The resource whose protocol name is `name`, if any.
pub open spec fn resource_named(name: Seq<char>) -> Option<Resource> {
    if name == "food"@ {
        Some(Resource::Food)
    } else if name == "linemate"@ {
        Some(Resource::Linemate)
    } else if name == "deraumere"@ {
        Some(Resource::Deraumere)
    } else if name == "sibur"@ {
        Some(Resource::Sibur)
    } else if name == "mendiane"@ {
        Some(Resource::Mendiane)
    } else if name == "phiras"@ {
        Some(Resource::Phiras)
    } else if name == "thystame"@ {
        Some(Resource::Thystame)
    } else {
        None
    }
}

impl Resource {
    pub fn to_string(&self) -> (r: String)
        ensures
            r@ == resource_name(*self),
    {
        match self {
            Resource::Food => String::from_str("food"),
            Resource::Linemate => String::from_str("linemate"),
            Resource::Deraumere => String::from_str("deraumere"),
            Resource::Sibur => String::from_str("sibur"),
            Resource::Mendiane => String::from_str("mendiane"),
            Resource::Phiras => String::from_str("phiras"),
            Resource::Thystame => String::from_str("thystame"),
        }
    }

    pub fn from_string(s: &str) -> (r: Option<Self>)
        ensures
            r == resource_named(s@),
    {
        let v = chars_of(s);
        Self::from_chars(&v)
    }

    pub fn from_chars(v: &Vec<char>) -> (r: Option<Self>)
        ensures
            r == resource_named(v@),
    {
        if equals_text(v, "food") {
            Some(Resource::Food)
        } else if equals_text(v, "linemate") {
            Some(Resource::Linemate)
        } else if equals_text(v, "deraumere") {
            Some(Resource::Deraumere)
        } else if equals_text(v, "sibur") {
            Some(Resource::Sibur)
        } else if equals_text(v, "mendiane") {
            Some(Resource::Mendiane)
        } else if equals_text(v, "phiras") {
            Some(Resource::Phiras)
        } else if equals_text(v, "thystame") {
            Some(Resource::Thystame)
        } else {
            None
        }
    }
}

/// How many of each resource the agent carries.
#[derive(Debug, Clone, Copy, PartialEq, Eq)]
pub struct Inventory {
    pub food: i32,
    pub linemate: i32,
    pub deraumere: i32,
    pub sibur: i32,
    pub mendiane: i32,
    pub phiras: i32,
    pub thystame: i32,
}

/// The inventory that holds nothing.
pub open spec fn empty_inventory() -> Inventory {
    Inventory {
        food: 0,
        linemate: 0,
        deraumere: 0,
        sibur: 0,
        mendiane: 0,
        phiras: 0,
        thystame: 0,
    }
}

/// The count that a snapshot entry gives: its decimal digits when they fit
/// an `i32`, else zero.
pub open spec fn count_value(t: Seq<char>) -> i32 {
    if all_digits(t) && digits_value(t) <= i32::MAX {
        digits_value(t) as i32
    } else {
        0
    }
}

/// The snapshot entries of `entries` among the first `n`, applied in order
/// from the empty inventory: an entry of two words sets the count of the
/// resource named by the first to the value of the second; a later entry
/// wins, and any other entry is ignored.
pub open spec fn apply_entries(entries: Seq<Seq<char>>, n: nat) -> Inventory
    decreases n,
{
    if n == 0 || n > entries.len() {
        empty_inventory()
    } else {
        let inv = apply_entries(entries, (n - 1) as nat);
        let w = words(entries[n - 1]);
        if w.len() == 2 {
            match resource_named(w[0]) {
                Some(r) => inv.with_count(r, count_value(w[1])),
                None => inv,
            }
        } else {
            inv
        }
    }
}

pub open spec fn is_bracket(c: char) -> bool {
    c == '[' || c == ']'
}

/// `s` without the brackets at either end, as `trim_matches` on `[` and `]`
/// leaves it.
pub open spec fn strip_brackets(s: Seq<char>) -> Seq<char>
    decreases s.len(),
{
    if s.len() > 0 && is_bracket(s[0]) {
        strip_brackets(s.drop_first())
    } else if s.len() > 0 && is_bracket(s.last()) {
        strip_brackets(s.drop_last())
    } else {
        s
    }
}

/// The inventory that a snapshot text describes.
pub open spec fn inventory_of_text(s: Seq<char>) -> Inventory {
    let entries = split_on(strip_brackets(s), ',');
    apply_entries(entries, entries.len())
}

impl Inventory {
    /// The count of `r`.
    pub open spec fn count(self, r: Resource) -> int {
        match r {
            Resource::Food => self.food as int,
            Resource::Linemate => self.linemate as int,
            Resource::Deraumere => self.deraumere as int,
            Resource::Sibur => self.sibur as int,
            Resource::Mendiane => self.mendiane as int,
            Resource::Phiras => self.phiras as int,
            Resource::Thystame => self.thystame as int,
        }
    }

    /// This inventory with the count of `r` set to `v`.
    pub open spec fn with_count(self, r: Resource, v: i32) -> Inventory {
        match r {
            Resource::Food => Inventory { food: v, ..self },
            Resource::Linemate => Inventory { linemate: v, ..self },
            Resource::Deraumere => Inventory { deraumere: v, ..self },
            Resource::Sibur => Inventory { sibur: v, ..self },
            Resource::Mendiane => Inventory { mendiane: v, ..self },
            Resource::Phiras => Inventory { phiras: v, ..self },
            Resource::Thystame => Inventory { thystame: v, ..self },
        }
    }

    /// The count of the resource called `name`; zero for a name of none.
    pub open spec fn count_named(self, name: Seq<char>) -> int {
        match resource_named(name) {
            Some(r) => self.count(r),
            None => 0,
        }
    }

    pub fn count_of(&self, r: Resource) -> (n: i32)
        ensures
            n == self.count(r),
    {
        match r {
            Resource::Food => self.food,
            Resource::Linemate => self.linemate,
            Resource::Deraumere => self.deraumere,
            Resource::Sibur => self.sibur,
            Resource::Mendiane => self.mendiane,
            Resource::Phiras => self.phiras,
            Resource::Thystame => self.thystame,
        }
    }

    pub fn set_count(&mut self, r: Resource, v: i32)
        ensures
            *final(self) == old(self).with_count(r, v),
    {
        match r {
            Resource::Food => self.food = v,
            Resource::Linemate => self.linemate = v,
            Resource::Deraumere => self.deraumere = v,
            Resource::Sibur => self.sibur = v,
            Resource::Mendiane => self.mendiane = v,
            Resource::Phiras => self.phiras = v,
            Resource::Thystame => self.thystame = v,
        }
    }

    /// The inventory that the snapshot entries describe (see `apply_entries`).
    pub fn from_entries(entries: &Vec<Vec<char>>) -> (r: Inventory)
        ensures
            r == apply_entries(views(entries@), entries@.len() as nat),
    {
        let mut inv = Inventory::default();
        let mut i: usize = 0;
        while i < entries.len()
            invariant
                i <= entries@.len(),
                inv == apply_entries(views(entries@), i as nat),
            decreases entries@.len() - i,
        {
            let w = split_words(&entries[i]);
            if w.len() == 2 {
                assert(w@[0]@ == views(w@)[0]);
                assert(w@[1]@ == views(w@)[1]);
                match Resource::from_chars(&w[0]) {
                    Some(r) => {
                        let v = match parse_digits(&w[1], 0x7fff_ffff) {
                            Some(n) => n as i32,
                            None => 0,
                        };
                        inv.set_count(r, v);
                    },
                    None => {},
                }
            }
            i = i + 1;
        }
        inv
    }

    /// Reads an inventory snapshot such as `[food 5, linemate 1]`. Entries
    /// that do not name a resource are skipped and unnamed resources stay at
    /// zero.
    pub fn from_response(response: &str) -> (r: Result<Self, ClientError>)
        ensures
            r == Ok::<Inventory, ClientError>(inventory_of_text(response@)),
    {
        let v = chars_of(response);
        let inner = strip_bracket_chars(&v);
        let entries = split_chars(&inner, ',');
        Ok(Self::from_entries(&entries))
    }

    pub fn get_resource(&self, resource: &str) -> (n: i32)
        ensures
            n == self.count_named(resource@),
    {
        match Resource::from_string(resource) {
            Some(r) => self.count_of(r),
            None => 0,
        }
    }

    pub fn has_resource(&self, resource: &str) -> (b: bool)
        ensures
            b == (self.count_named(resource@) > 0),
    {
        self.get_resource(resource) > 0
    }
}

impl Default for Inventory {
    fn default() -> (r: Self)
        ensures
            r == empty_inventory(),
    {
        Inventory {
            food: 0,
            linemate: 0,
            deraumere: 0,
            sibur: 0,
            mendiane: 0,
            phiras: 0,
            thystame: 0,
        }
    }
}

fn bracket(c: char) -> (r: bool)
    ensures
        r == is_bracket(c),
{
    c == '[' || c == ']'
}

fn strip_bracket_chars(v: &Vec<char>) -> (r: Vec<char>)
    ensures
        r@ == strip_brackets(v@),
{
    let n = v.len();
    let mut lo: usize = 0;
    assert(v@.subrange(0, n as int) =~= v@);
    while lo < n && bracket(v[lo])
        invariant
            n == v@.len(),
            lo <= n,
            strip_brackets(v@) == strip_brackets(v@.subrange(lo as int, n as int)),
        decreases n - lo,
    {
        assert(v@.subrange(lo as int, n as int).drop_first() =~= v@.subrange(lo + 1, n as int));
        lo = lo + 1;
    }
    let mut hi: usize = n;
    while hi > lo && bracket(v[hi - 1])
        invariant
            n == v@.len(),
            lo <= hi <= n,
            lo < hi ==> !is_bracket(v@[lo as int]),
            strip_brackets(v@) == strip_brackets(v@.subrange(lo as int, hi as int)),
        decreases hi - lo,
    {
        assert(v@.subrange(lo as int, hi as int).drop_last() =~= v@.subrange(lo as int, hi - 1));
        hi = hi - 1;
    }
    crate::text::slice_of(v, lo, hi)
}

} // verus!
