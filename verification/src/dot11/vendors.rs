//! The vendor (OUI) lookup table: maps the first three octets of a MAC
//! address to the manufacturer's name.
//!
//! Loading the table from a registry file is I/O and lives with the caller;
//! the table itself is a plain list of key/name pairs. Lookups never fail:
//! an unknown or malformed key simply reads as the empty string.

use vstd::prelude::*;

verus! {

/// The lookup key that a formatted MAC address yields: the six hex
/// characters of its first three octets, with the separating colons
/// removed. A MAC too short to hold three octets yields the empty key.
pub open spec fn spec_oui_key(mac: Seq<char>) -> Seq<char> {
    if mac.len() >= 8 {
        seq![mac[0], mac[1], mac[3], mac[4], mac[6], mac[7]]
    } else {
        Seq::empty()
    }
}

/// The name of the first table entry whose key equals `key`, or the empty
/// string when no entry matches.
pub open spec fn spec_lookup(db: Seq<(Seq<char>, Seq<char>)>, key: Seq<char>) -> Seq<char>
    decreases db.len(),
{
    if db.len() == 0 {
        Seq::empty()
    } else if db[0].0 == key {
        db[0].1
    } else {
        spec_lookup(db.drop_first(), key)
    }
}

proof fn lemma_lookup_skip(db: Seq<(Seq<char>, Seq<char>)>, key: Seq<char>, i: int)
    requires
        0 <= i <= db.len(),
        forall|j: int| 0 <= j < i ==> (#[trigger] db[j]).0 != key,
    ensures
        spec_lookup(db, key) == spec_lookup(db.skip(i), key),
    decreases i,
{
    if i > 0 {
        assert(db[0].0 != key);
        assert(spec_lookup(db, key) == spec_lookup(db.drop_first(), key));
        assert forall|j: int| 0 <= j < i - 1 implies (#[trigger] db.drop_first()[j]).0 != key by {
            assert(db.drop_first()[j] == db[j + 1]);
        }
        lemma_lookup_skip(db.drop_first(), key, i - 1);
        assert(db.drop_first().skip(i - 1) =~= db.skip(i));
    } else {
        assert(db.skip(0) =~= db);
    }
}

/// The vendor lookup table, as pairs of a six-hex-character OUI key and the
/// vendor name it stands for.
#[derive(Clone, Debug)]
pub struct VendorsDB {
    pub db: Vec<(String, String)>,
}

impl View for VendorsDB {
    type V = Seq<(Seq<char>, Seq<char>)>;

    open spec fn view(&self) -> Seq<(Seq<char>, Seq<char>)> {
        self.db@.map_values(|p: (String, String)| (p.0@, p.1@))
    }
}

impl VendorsDB {
    /// Wraps an already-loaded table of OUI-key/vendor-name pairs.
    pub fn new(db: Vec<(String, String)>) -> (r: VendorsDB)
        ensures
            r.db == db,
    {
        VendorsDB { db }
    }

    /// Whether `key` is exactly the OUI key of the MAC text `mac`.
    fn key_matches(key: &String, mac: &String) -> (r: bool)
        ensures
            r == (key@ == spec_oui_key(mac@)),
    {
        let mac_str = mac.as_str();
        let key_str = key.as_str();
        let mac_len = mac_str.unicode_len();
        let key_len = key_str.unicode_len();
        if mac_len < 8 {
            if key_len == 0 {
                proof {
                    assert(key@ =~= spec_oui_key(mac@));
                }
                true
            } else {
                false
            }
        } else if key_len != 6 {
            false
        } else {
            let r = key_str.get_char(0) == mac_str.get_char(0) && key_str.get_char(1)
                == mac_str.get_char(1) && key_str.get_char(2) == mac_str.get_char(3)
                && key_str.get_char(3) == mac_str.get_char(4) && key_str.get_char(4)
                == mac_str.get_char(6) && key_str.get_char(5) == mac_str.get_char(7);
            proof {
                if r {
                    assert(key@ =~= spec_oui_key(mac@));
                }
            }
            r
        }
    }

    /// Looks the MAC's vendor up by its first three octets: the name of the
    /// first matching entry, or the empty string when none matches.
    pub fn lookup(&self, mac: String) -> (r: String)
        ensures
            r@ == spec_lookup(self@, spec_oui_key(mac@)),
    {
        let mut i: usize = 0;
        while i < self.db.len()
            invariant
                i <= self.db@.len(),
                forall|j: int| 0 <= j < i ==> (#[trigger] self@[j]).0 != spec_oui_key(mac@),
            decreases self.db@.len() - i,
        {
            let entry = &self.db[i];
            proof {
                assert(self@[i as int] == (entry.0@, entry.1@));
            }
            if VendorsDB::key_matches(&entry.0, &mac) {
                proof {
                    lemma_lookup_skip(self@, spec_oui_key(mac@), i as int);
                    assert(self@.skip(i as int)[0] == self@[i as int]);
                }
                return entry.1.clone();
            }
            i = i + 1;
        }
        proof {
            lemma_lookup_skip(self@, spec_oui_key(mac@), i as int);
            assert(self@.skip(i as int) =~= Seq::<(Seq<char>, Seq<char>)>::empty());
        }
        String::new()
    }
}

} // verus!
