//! The normalized DMI identification profile.
//!
//! A profile maps a fixed set of recognized field names to the identification
//! strings taken from the firmware's SMBIOS tables.  Every field defaults to
//! the empty string when the backing table or string is absent.

use vstd::prelude::*;

use crate::bytes::copy_range;
use crate::smbios::byte_or_zero;
use crate::smbios::spec_byte_or_zero;
use crate::smbios::spec_find_table;
use crate::smbios::table_views;
use crate::smbios::SMBios3;

verus! {

/// One of the ten recognized `dmi-match` field identifiers.
#[derive(Clone, Copy, Debug, PartialEq, Eq)]
pub enum DmiKey {
    SysVendor,
    ProductName,
    ProductVersion,
    ProductSku,
    ProductFamily,
    BoardVendor,
    BoardName,
    BoardVersion,
    ChassisVendor,
    ChassisVersion,
}

/// The normalized field-to-value identification profile, one value per
/// recognized field.  Values are raw SMBIOS strings (byte strings: firmware
/// does not promise valid UTF-8).
#[derive(Clone, Debug, PartialEq, Eq)]
pub struct DmiProfile {
    pub sys_vendor: Vec<u8>,
    pub product_name: Vec<u8>,
    pub product_version: Vec<u8>,
    pub product_sku: Vec<u8>,
    pub product_family: Vec<u8>,
    pub board_vendor: Vec<u8>,
    pub board_name: Vec<u8>,
    pub board_version: Vec<u8>,
    pub chassis_vendor: Vec<u8>,
    pub chassis_version: Vec<u8>,
}

impl DmiProfile {
    /// The value of the field named by `k`.
    pub open spec fn spec_field(self, k: DmiKey) -> Seq<u8> {
        match k {
            DmiKey::SysVendor => self.sys_vendor@,
            DmiKey::ProductName => self.product_name@,
            DmiKey::ProductVersion => self.product_version@,
            DmiKey::ProductSku => self.product_sku@,
            DmiKey::ProductFamily => self.product_family@,
            DmiKey::BoardVendor => self.board_vendor@,
            DmiKey::BoardName => self.board_name@,
            DmiKey::BoardVersion => self.board_version@,
            DmiKey::ChassisVendor => self.chassis_vendor@,
            DmiKey::ChassisVersion => self.chassis_version@,
        }
    }

    /// Looks a recognized field up.
    pub fn field(&self, k: DmiKey) -> (v: &Vec<u8>)
        ensures
            v@ == self.spec_field(k),
    {
        match k {
            DmiKey::SysVendor => &self.sys_vendor,
            DmiKey::ProductName => &self.product_name,
            DmiKey::ProductVersion => &self.product_version,
            DmiKey::ProductSku => &self.product_sku,
            DmiKey::ProductFamily => &self.product_family,
            DmiKey::BoardVendor => &self.board_vendor,
            DmiKey::BoardName => &self.board_name,
            DmiKey::BoardVersion => &self.board_version,
            DmiKey::ChassisVendor => &self.chassis_vendor,
            DmiKey::ChassisVersion => &self.chassis_version,
        }
    }

    /// A profile with every field empty.
    pub fn empty() -> (p: DmiProfile)
        ensures
            forall|k: DmiKey| p.spec_field(k) == Seq::<u8>::empty(),
    {
        DmiProfile {
            sys_vendor: Vec::new(),
            product_name: Vec::new(),
            product_version: Vec::new(),
            product_sku: Vec::new(),
            product_family: Vec::new(),
            board_vendor: Vec::new(),
            board_name: Vec::new(),
            board_version: Vec::new(),
            chassis_vendor: Vec::new(),
            chassis_version: Vec::new(),
        }
    }
}

/// The recognized field identifier named by `name`, if any.
pub open spec fn spec_name_key(name: Seq<char>) -> Option<DmiKey> {
    if name == "sys_vendor"@ {
        Some(DmiKey::SysVendor)
    } else if name == "product_name"@ {
        Some(DmiKey::ProductName)
    } else if name == "product_version"@ {
        Some(DmiKey::ProductVersion)
    } else if name == "product_sku"@ {
        Some(DmiKey::ProductSku)
    } else if name == "product_family"@ {
        Some(DmiKey::ProductFamily)
    } else if name == "board_vendor"@ {
        Some(DmiKey::BoardVendor)
    } else if name == "board_name"@ {
        Some(DmiKey::BoardName)
    } else if name == "board_version"@ {
        Some(DmiKey::BoardVersion)
    } else if name == "chassis_vendor"@ {
        Some(DmiKey::ChassisVendor)
    } else if name == "chassis_version"@ {
        Some(DmiKey::ChassisVersion)
    } else {
        None
    }
}

/// The pool string a 1-based reference resolves to: the empty string for
/// the reserved reference 0 and for any reference past the pool.
pub open spec fn spec_string_at(strings: Seq<Seq<u8>>, idx: int) -> Seq<u8> {
    if 0 <= idx < strings.len() {
        strings[idx]
    } else {
        Seq::empty()
    }
}

/// The identification string a table's field points at: look the table of
/// the given structure type up, read the 1-based string reference at byte
/// offset `off` of its formatted area, and resolve it in the table's own
/// string pool.  Empty whenever the table, the field, or the string is
/// absent.
pub open spec fn spec_table_string(doc: SMBios3, number: u8, off: int) -> Seq<u8> {
    match spec_find_table(table_views(doc.tables@), number) {
        Some(i) => spec_string_at(
            table_views(doc.tables@)[i].strings,
            spec_byte_or_zero(table_views(doc.tables@)[i].data, off) as int,
        ),
        None => Seq::empty(),
    }
}

/// Where each recognized profile field comes from: system information for
/// the product fields, base-board and chassis information for the rest.
pub open spec fn spec_profile_field(doc: SMBios3, k: DmiKey) -> Seq<u8> {
    match k {
        DmiKey::SysVendor => spec_table_string(doc, 1, 4),
        DmiKey::ProductName => spec_table_string(doc, 1, 5),
        DmiKey::ProductVersion => spec_table_string(doc, 1, 6),
        DmiKey::ProductSku => spec_table_string(doc, 1, 25),
        DmiKey::ProductFamily => spec_table_string(doc, 1, 26),
        DmiKey::BoardVendor => spec_table_string(doc, 2, 4),
        DmiKey::BoardName => spec_table_string(doc, 2, 5),
        DmiKey::BoardVersion => spec_table_string(doc, 2, 6),
        DmiKey::ChassisVendor => spec_table_string(doc, 3, 4),
        DmiKey::ChassisVersion => spec_table_string(doc, 3, 6),
    }
}

/// Resolves one identification string out of the document.
fn resolve_table_string(doc: &SMBios3, number: u8, off: usize) -> (v: Vec<u8>)
    ensures
        v@ == spec_table_string(*doc, number, off as int),
{
    match doc.get_table(number) {
        None => Vec::new(),
        Some(t) => {
            let idx = byte_or_zero(&t.data, off);
            match t.get_string(idx) {
                None => Vec::new(),
                Some(s) => {
                    let r = copy_range(s.as_slice(), 0, s.len());
                    proof {
                        assert(r@ =~= s@);
                    }
                    r
                },
            }
        },
    }
}

/// Assembles the normalized profile out of a decoded SMBIOS document,
/// defaulting every field to the empty string when its backing table or
/// string is absent.
pub fn build_dmi_profile(doc: &SMBios3) -> (p: DmiProfile)
    ensures
        forall|k: DmiKey| #[trigger] p.spec_field(k) == spec_profile_field(*doc, k),
{
    DmiProfile {
        sys_vendor: resolve_table_string(doc, 1, 4),
        product_name: resolve_table_string(doc, 1, 5),
        product_version: resolve_table_string(doc, 1, 6),
        product_sku: resolve_table_string(doc, 1, 25),
        product_family: resolve_table_string(doc, 1, 26),
        board_vendor: resolve_table_string(doc, 2, 4),
        board_name: resolve_table_string(doc, 2, 5),
        board_version: resolve_table_string(doc, 2, 6),
        chassis_vendor: resolve_table_string(doc, 3, 4),
        chassis_version: resolve_table_string(doc, 3, 6),
    }
}

/// Equality between an owned string and a literal.
pub(crate) fn str_eq(a: &String, b: &str) -> (r: bool)
    ensures
        r == (a@ == b@),
{
    let owned: String = b.to_owned();
    a.eq(&owned)
}

/// Maps a `dmi-match` property name to its recognized field identifier.
/// Unrecognized names map to `None`.
pub fn name_key(name: &String) -> (k: Option<DmiKey>)
    ensures
        k == spec_name_key(name@),
{
    if str_eq(name, "sys_vendor") {
        Some(DmiKey::SysVendor)
    } else if str_eq(name, "product_name") {
        Some(DmiKey::ProductName)
    } else if str_eq(name, "product_version") {
        Some(DmiKey::ProductVersion)
    } else if str_eq(name, "product_sku") {
        Some(DmiKey::ProductSku)
    } else if str_eq(name, "product_family") {
        Some(DmiKey::ProductFamily)
    } else if str_eq(name, "board_vendor") {
        Some(DmiKey::BoardVendor)
    } else if str_eq(name, "board_name") {
        Some(DmiKey::BoardName)
    } else if str_eq(name, "board_version") {
        Some(DmiKey::BoardVersion)
    } else if str_eq(name, "chassis_vendor") {
        Some(DmiKey::ChassisVendor)
    } else if str_eq(name, "chassis_version") {
        Some(DmiKey::ChassisVersion)
    } else {
        None
    }
}

} // verus!
