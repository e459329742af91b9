//! The registry dump's versions-table row, built field by field.
//!
//! A row has exactly 24 columns, entered in order. The columns the
//! selection logic reads — crate id, crate size, download count, repository,
//! yanked flag — carry exact contracts; the remaining columns are carried
//! through as text.

use vstd::prelude::*;

use crate::strutil::{spec_parse_u64, parse_u64};

verus! {

/// One row of the versions table.
pub struct VersionsEntry {
    pub bin_names: String,
    pub categories: String,
    pub checksum: String,
    pub crate_id: u64,
    pub crate_size: u64,
    pub created_at: String,
    pub description: String,
    pub documentation: String,
    pub downloads: u64,
    pub edition: String,
    pub features: String,
    pub has_lib: String,
    pub homepage: String,
    pub id: String,
    pub keywords: String,
    pub license: String,
    pub links: String,
    pub num: String,
    pub num_no_build: String,
    pub published_by: String,
    pub repository: String,
    pub rust_version: String,
    pub updated_at: String,
    pub yanked: bool,
}

impl VersionsEntry {
    /// An empty row: all text columns empty, all numbers zero.
    pub fn new_empty() -> (r: Self)
        ensures
            r.crate_id == 0,
            r.crate_size == 0,
            r.downloads == 0,
            r.repository@ == Seq::<char>::empty(),
            r.yanked == false,
    {
        VersionsEntry {
            bin_names: String::new(),
            categories: String::new(),
            checksum: String::new(),
            crate_id: 0,
            crate_size: 0,
            created_at: String::new(),
            description: String::new(),
            documentation: String::new(),
            downloads: 0,
            edition: String::new(),
            features: String::new(),
            has_lib: String::new(),
            homepage: String::new(),
            id: String::new(),
            keywords: String::new(),
            license: String::new(),
            links: String::new(),
            num: String::new(),
            num_no_build: String::new(),
            published_by: String::new(),
            repository: String::new(),
            rust_version: String::new(),
            updated_at: String::new(),
            yanked: false,
        }
    }
}

/// Whether the value entered at column `idx` is well-formed: the numeric
/// columns must parse as `u64`, the yanked column must be `t` or `f`.
pub open spec fn spec_field_ok(idx: int, v: Seq<char>) -> bool {
    if idx == 3 || idx == 4 || idx == 8 {
        spec_parse_u64(v) is Some
    } else if idx == 23 {
        v == "t"@ || v == "f"@
    } else {
        true
    }
}

/// Builds a `VersionsEntry` from its 24 columns, entered in order.
pub struct VersionsEntryBuilder {
    pub inner: VersionsEntry,
    pub next_field: usize,
}

impl VersionsEntryBuilder {
    /// A builder with no columns entered.
    pub fn new() -> (r: Self)
        ensures
            r.next_field == 0,
            r.inner.crate_id == 0,
            r.inner.crate_size == 0,
            r.inner.downloads == 0,
            r.inner.repository@ == Seq::<char>::empty(),
            r.inner.yanked == false,
    {
        VersionsEntryBuilder { inner: VersionsEntry::new_empty(), next_field: 0 }
    }

    /// Enter the next column. Fails when more than 24 columns are entered or
    /// a numeric or boolean column does not parse; otherwise reports whether
    /// the row is now complete. The contract pins the columns the selection
    /// logic reads; the other columns are carried as uninterpreted text.
    pub fn enter_next(&mut self, value: &str) -> (r: Result<bool, String>)
        ensures
            match r {
                Result::Ok(done) => {
                    &&& old(self).next_field < 24
                    &&& spec_field_ok(old(self).next_field as int, value@)
                    &&& final(self).next_field == old(self).next_field + 1
                    &&& done == (final(self).next_field == 24)
                    &&& final(self).inner.crate_id == if old(self).next_field == 3 {
                        spec_parse_u64(value@)->Some_0
                    } else {
                        old(self).inner.crate_id
                    }
                    &&& final(self).inner.crate_size == if old(self).next_field == 4 {
                        spec_parse_u64(value@)->Some_0
                    } else {
                        old(self).inner.crate_size
                    }
                    &&& final(self).inner.downloads == if old(self).next_field == 8 {
                        spec_parse_u64(value@)->Some_0
                    } else {
                        old(self).inner.downloads
                    }
                    &&& final(self).inner.repository@ == if old(self).next_field == 20 {
                        value@
                    } else {
                        old(self).inner.repository@
                    }
                    &&& final(self).inner.yanked == if old(self).next_field == 23 {
                        value@ == "t"@
                    } else {
                        old(self).inner.yanked
                    }
                },
                Result::Err(_) => old(self).next_field >= 24 || !spec_field_ok(
                    old(self).next_field as int,
                    value@,
                ),
            },
    {
        match self.next_field {
            0 => self.inner.bin_names = value.to_owned(),
            1 => self.inner.categories = value.to_owned(),
            2 => self.inner.checksum = value.to_owned(),
            3 => {
                match parse_u64(value) {
                    Option::Some(v) => self.inner.crate_id = v,
                    Option::None => {
                        return Result::Err("failed to parse crate id as u64".to_owned());
                    },
                }
            },
            4 => {
                match parse_u64(value) {
                    Option::Some(v) => self.inner.crate_size = v,
                    Option::None => {
                        return Result::Err("failed to parse crate size as u64".to_owned());
                    },
                }
            },
            5 => self.inner.created_at = value.to_owned(),
            6 => self.inner.description = value.to_owned(),
            7 => self.inner.documentation = value.to_owned(),
            8 => {
                match parse_u64(value) {
                    Option::Some(v) => self.inner.downloads = v,
                    Option::None => {
                        return Result::Err("failed to parse downloads as u64".to_owned());
                    },
                }
            },
            9 => self.inner.edition = value.to_owned(),
            10 => self.inner.features = value.to_owned(),
            11 => self.inner.has_lib = value.to_owned(),
            12 => self.inner.homepage = value.to_owned(),
            13 => self.inner.id = value.to_owned(),
            14 => self.inner.keywords = value.to_owned(),
            15 => self.inner.license = value.to_owned(),
            16 => self.inner.links = value.to_owned(),
            17 => self.inner.num = value.to_owned(),
            18 => self.inner.num_no_build = value.to_owned(),
            19 => self.inner.published_by = value.to_owned(),
            20 => self.inner.repository = value.to_owned(),
            21 => self.inner.rust_version = value.to_owned(),
            22 => self.inner.updated_at = value.to_owned(),
            23 => {
                match parse_yanked_bool(value) {
                    Result::Ok(b) => self.inner.yanked = b,
                    Result::Err(e) => {
                        return Result::Err(e);
                    },
                }
            },
            _ => {
                return Result::Err("too many fields entered in version entry builder".to_owned());
            },
        }
        self.next_field = self.next_field + 1;
        Result::Ok(self.next_field == 24)
    }

    /// Finish the row; fails unless exactly 24 columns were entered.
    pub fn consume(self) -> (r: Result<VersionsEntry, String>)
        ensures
            match r {
                Result::Ok(e) => self.next_field == 24 && e == self.inner,
                Result::Err(_) => self.next_field != 24,
            },
    {
        if self.next_field == 24 {
            Result::Ok(self.inner)
        } else {
            Result::Err("not enough fields entered in version entry builder".to_owned())
        }
    }
}

/// Read the registry's yanked flag: `t` is true, `f` is false, anything
/// else is rejected.
pub fn parse_yanked_bool(value: &str) -> (r: Result<bool, String>)
    ensures
        match r {
            Result::Ok(b) => b == (value@ == "t"@) && (value@ == "t"@ || value@ == "f"@),
            Result::Err(_) => value@ != "t"@ && value@ != "f"@,
        },
{
    proof {
        reveal_strlit("t");
        reveal_strlit("f");
    }
    let len: usize = value.unicode_len();
    if len == 1 && value.get_char(0) == 'f' {
        proof {
            assert(value@ =~= "f"@);
        }
        Result::Ok(false)
    } else if len == 1 && value.get_char(0) == 't' {
        proof {
            assert(value@ =~= "t"@);
        }
        Result::Ok(true)
    } else {
        proof {
            if value@ == "t"@ {
                assert(value@.len() == 1 && value@[0] == 't');
            }
            if value@ == "f"@ {
                assert(value@.len() == 1 && value@[0] == 'f');
            }
        }
        Result::Err("unexpected yanked value".to_owned())
    }
}

} // verus!
