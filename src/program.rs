//! The award-program catalog entries that spots refer to, and their client shape.
use vstd::prelude::*;
use crate::spot::copy_opt;

verus! {

/// A catalog entry. Times are microseconds since the Unix epoch, UTC.
#[derive(Debug)]
pub struct ProgramRow {
    pub slug: String,
    pub name: String,
    pub short_name: String,
    pub icon: String,
    pub icon_url: Option<String>,
    pub website: Option<String>,
    pub server_base_url: Option<String>,
    pub reference_label: String,
    pub reference_format: Option<String>,
    pub reference_example: Option<String>,
    pub multi_ref_allowed: bool,
    pub activation_threshold: Option<i32>,
    pub supports_rove: bool,
    pub capabilities: Vec<String>,
    pub adif_my_sig: Option<String>,
    pub adif_my_sig_info: Option<String>,
    pub adif_sig_field: Option<String>,
    pub adif_sig_info_field: Option<String>,
    pub data_entry_label: Option<String>,
    pub data_entry_placeholder: Option<String>,
    pub data_entry_format: Option<String>,
    pub sort_order: i32,
    pub is_active: bool,
    pub created_at: i64,
    pub updated_at: i64,
}

/// How a program's references map onto ADIF fields.
#[derive(Debug)]
pub struct AdifFieldMapping {
    pub my_sig: Option<String>,
    pub my_sig_info: Option<String>,
    pub sig_field: Option<String>,
    pub sig_info_field: Option<String>,
}

/// How a client asks for a program's extra data.
#[derive(Debug)]
pub struct DataEntryConfig {
    pub label: String,
    pub placeholder: Option<String>,
    pub format: Option<String>,
}

/// What a client sees of a program.
#[derive(Debug)]
pub struct ProgramResponse {
    pub slug: String,
    pub name: String,
    pub short_name: String,
    pub icon: String,
    pub icon_url: Option<String>,
    pub website: Option<String>,
    pub server_base_url: Option<String>,
    pub reference_label: String,
    pub reference_format: Option<String>,
    pub reference_example: Option<String>,
    pub multi_ref_allowed: bool,
    pub activation_threshold: Option<i32>,
    pub supports_rove: bool,
    pub capabilities: Vec<String>,
    pub adif_fields: Option<AdifFieldMapping>,
    pub data_entry: Option<DataEntryConfig>,
    pub is_active: bool,
}

/// The catalog as a client sees it, with a version that changes when it does.
#[derive(Debug)]
pub struct ProgramListResponse {
    pub programs: Vec<ProgramResponse>,
    pub version: i64,
}

/// A new catalog entry.
#[derive(Debug)]
pub struct CreateProgramRequest {
    pub slug: String,
    pub name: String,
    pub short_name: String,
    pub icon: String,
    pub icon_url: Option<String>,
    pub website: Option<String>,
    pub server_base_url: Option<String>,
    pub reference_label: String,
    pub reference_format: Option<String>,
    pub reference_example: Option<String>,
    pub multi_ref_allowed: bool,
    pub activation_threshold: Option<i32>,
    pub supports_rove: bool,
    pub capabilities: Vec<String>,
    pub adif_my_sig: Option<String>,
    pub adif_my_sig_info: Option<String>,
    pub adif_sig_field: Option<String>,
    pub adif_sig_info_field: Option<String>,
    pub data_entry_label: Option<String>,
    pub data_entry_placeholder: Option<String>,
    pub data_entry_format: Option<String>,
    pub sort_order: i32,
}

/// Changes to a catalog entry. For each field, `None` leaves it as it is; for a
/// field that may be empty, `Some(None)` empties it and `Some(Some(v))` sets it.
#[derive(Debug)]
pub struct UpdateProgramRequest {
    pub name: Option<String>,
    pub short_name: Option<String>,
    pub icon: Option<String>,
    pub icon_url: Option<Option<String>>,
    pub website: Option<Option<String>>,
    pub server_base_url: Option<Option<String>>,
    pub reference_label: Option<String>,
    pub reference_format: Option<Option<String>>,
    pub reference_example: Option<Option<String>>,
    pub multi_ref_allowed: Option<bool>,
    pub activation_threshold: Option<Option<i32>>,
    pub supports_rove: Option<bool>,
    pub capabilities: Option<Vec<String>>,
    pub adif_my_sig: Option<Option<String>>,
    pub adif_my_sig_info: Option<Option<String>>,
    pub adif_sig_field: Option<Option<String>>,
    pub adif_sig_info_field: Option<Option<String>>,
    pub data_entry_label: Option<Option<String>>,
    pub data_entry_placeholder: Option<Option<String>>,
    pub data_entry_format: Option<Option<String>>,
    pub sort_order: Option<i32>,
    pub is_active: Option<bool>,
}

/// The ADIF mapping shown for a row: present when any of its four fields is.
pub open spec fn adif_of(row: ProgramRow) -> Option<AdifFieldMapping> {
    if row.adif_my_sig is Some || row.adif_my_sig_info is Some || row.adif_sig_field is Some
        || row.adif_sig_info_field is Some {
        Some(
            AdifFieldMapping {
                my_sig: row.adif_my_sig,
                my_sig_info: row.adif_my_sig_info,
                sig_field: row.adif_sig_field,
                sig_info_field: row.adif_sig_info_field,
            },
        )
    } else {
        None
    }
}

/// The data-entry settings shown for a row: present when it has a label.
pub open spec fn data_entry_of(row: ProgramRow) -> Option<DataEntryConfig> {
    match row.data_entry_label {
        Some(label) => Some(
            DataEntryConfig {
                label: label,
                placeholder: row.data_entry_placeholder,
                format: row.data_entry_format,
            },
        ),
        None => None,
    }
}

pub open spec fn program_response_of(row: ProgramRow) -> ProgramResponse {
    ProgramResponse {
        slug: row.slug,
        name: row.name,
        short_name: row.short_name,
        icon: row.icon,
        icon_url: row.icon_url,
        website: row.website,
        server_base_url: row.server_base_url,
        reference_label: row.reference_label,
        reference_format: row.reference_format,
        reference_example: row.reference_example,
        multi_ref_allowed: row.multi_ref_allowed,
        activation_threshold: row.activation_threshold,
        supports_rove: row.supports_rove,
        capabilities: row.capabilities,
        adif_fields: adif_of(row),
        data_entry: data_entry_of(row),
        is_active: row.is_active,
    }
}

impl From<ProgramRow> for ProgramResponse {
    fn from(row: ProgramRow) -> (r: ProgramResponse) {
        let adif_fields = if row.adif_my_sig.is_some() || row.adif_my_sig_info.is_some()
            || row.adif_sig_field.is_some() || row.adif_sig_info_field.is_some() {
            Some(
                AdifFieldMapping {
                    my_sig: row.adif_my_sig,
                    my_sig_info: row.adif_my_sig_info,
                    sig_field: row.adif_sig_field,
                    sig_info_field: row.adif_sig_info_field,
                },
            )
        } else {
            None
        };
        let data_entry = match row.data_entry_label {
            Some(label) => Some(
                DataEntryConfig {
                    label,
                    placeholder: row.data_entry_placeholder,
                    format: row.data_entry_format,
                },
            ),
            None => None,
        };
        ProgramResponse {
            slug: row.slug,
            name: row.name,
            short_name: row.short_name,
            icon: row.icon,
            icon_url: row.icon_url,
            website: row.website,
            server_base_url: row.server_base_url,
            reference_label: row.reference_label,
            reference_format: row.reference_format,
            reference_example: row.reference_example,
            multi_ref_allowed: row.multi_ref_allowed,
            activation_threshold: row.activation_threshold,
            supports_rove: row.supports_rove,
            capabilities: row.capabilities,
            adif_fields,
            data_entry,
            is_active: row.is_active,
        }
    }
}

impl vstd::std_specs::convert::FromSpecImpl<ProgramRow> for ProgramResponse {
    open spec fn obeys_from_spec() -> bool {
        true
    }

    open spec fn from_spec(row: ProgramRow) -> ProgramResponse {
        program_response_of(row)
    }
}

/// Whether a program advertises the capability named `cap`.
pub open spec fn has_capability(row: ProgramRow, cap: Seq<char>) -> bool {
    exists|i: int| 0 <= i < row.capabilities@.len() && (#[trigger] row.capabilities@[i])@ == cap
}

impl ProgramRow {
    /// Whether the program advertises the capability named `cap`.
    pub fn has_capability(&self, cap: &String) -> (r: bool)
        ensures
            r == has_capability(*self, cap@),
    {
        let mut i: usize = 0;
        while i < self.capabilities.len()
            invariant
                0 <= i <= self.capabilities@.len(),
                forall|k: int| 0 <= k < i ==> (#[trigger] self.capabilities@[k])@ != cap@,
            decreases self.capabilities@.len() - i,
        {
            if self.capabilities[i].eq(cap) {
                return true;
            }
            i = i + 1;
        }
        false
    }
}

/// The first active program with `slug`, as the catalog lists them.
pub open spec fn is_first_active(catalog: Seq<ProgramRow>, slug: Seq<char>, i: int) -> bool {
    &&& 0 <= i < catalog.len()
    &&& catalog[i].slug@ == slug
    &&& catalog[i].is_active
    &&& forall|j: int| 0 <= j < i ==> !((#[trigger] catalog[j]).slug@ == slug && catalog[j].is_active)
}

pub open spec fn no_active(catalog: Seq<ProgramRow>, slug: Seq<char>) -> bool {
    forall|j: int| 0 <= j < catalog.len() ==> !((#[trigger] catalog[j]).slug@ == slug && catalog[j].is_active)
}

/// Index of the first active program with `slug`.
pub fn get_program(catalog: &Vec<ProgramRow>, slug: &String) -> (r: Option<usize>)
    ensures
        match r {
            Some(i) => is_first_active(catalog@, slug@, i as int),
            None => no_active(catalog@, slug@),
        },
{
    let mut i: usize = 0;
    while i < catalog.len()
        invariant
            0 <= i <= catalog@.len(),
            forall|j: int| 0 <= j < i ==> !((#[trigger] catalog@[j]).slug@ == slug@ && catalog@[j].is_active),
        decreases catalog@.len() - i,
    {
        if catalog[i].is_active && catalog[i].slug.eq(slug) {
            return Some(i);
        }
        i = i + 1;
    }
    None
}

/// An equal copy of a list of strings, item by item.
pub fn copy_strings(v: &Vec<String>) -> (r: Vec<String>)
    ensures
        r@ == v@,
{
    let mut out: Vec<String> = Vec::new();
    let mut i: usize = 0;
    while i < v.len()
        invariant
            0 <= i <= v@.len(),
            out@ == v@.take(i as int),
        decreases v@.len() - i,
    {
        out.push(v[i].clone());
        proof {
            assert(v@.take(i as int + 1) =~= v@.take(i as int).push(v@[i as int]));
        }
        i = i + 1;
    }
    proof {
        assert(v@.take(v@.len() as int) =~= v@);
    }
    out
}

/// `new` is `old` with the changes of `req` made at `now`: each field the
/// request gives is set to the given value (an empty one included), the others
/// stay, and `updated_at` becomes `now`.
pub open spec fn program_updated(old: ProgramRow, new: ProgramRow, req: UpdateProgramRequest, now: i64) -> bool {
    &&& new.slug == old.slug
    &&& new.name == match req.name {
        Some(v) => v,
        None => old.name,
    }
    &&& new.short_name == match req.short_name {
        Some(v) => v,
        None => old.short_name,
    }
    &&& new.icon == match req.icon {
        Some(v) => v,
        None => old.icon,
    }
    &&& new.icon_url == match req.icon_url {
        Some(v) => v,
        None => old.icon_url,
    }
    &&& new.website == match req.website {
        Some(v) => v,
        None => old.website,
    }
    &&& new.server_base_url == match req.server_base_url {
        Some(v) => v,
        None => old.server_base_url,
    }
    &&& new.reference_label == match req.reference_label {
        Some(v) => v,
        None => old.reference_label,
    }
    &&& new.reference_format == match req.reference_format {
        Some(v) => v,
        None => old.reference_format,
    }
    &&& new.reference_example == match req.reference_example {
        Some(v) => v,
        None => old.reference_example,
    }
    &&& new.multi_ref_allowed == match req.multi_ref_allowed {
        Some(v) => v,
        None => old.multi_ref_allowed,
    }
    &&& new.activation_threshold == match req.activation_threshold {
        Some(v) => v,
        None => old.activation_threshold,
    }
    &&& new.supports_rove == match req.supports_rove {
        Some(v) => v,
        None => old.supports_rove,
    }
    &&& match req.capabilities {
        Some(v) => new.capabilities@ == v@,
        None => new.capabilities@ == old.capabilities@,
    }
    &&& new.adif_my_sig == match req.adif_my_sig {
        Some(v) => v,
        None => old.adif_my_sig,
    }
    &&& new.adif_my_sig_info == match req.adif_my_sig_info {
        Some(v) => v,
        None => old.adif_my_sig_info,
    }
    &&& new.adif_sig_field == match req.adif_sig_field {
        Some(v) => v,
        None => old.adif_sig_field,
    }
    &&& new.adif_sig_info_field == match req.adif_sig_info_field {
        Some(v) => v,
        None => old.adif_sig_info_field,
    }
    &&& new.data_entry_label == match req.data_entry_label {
        Some(v) => v,
        None => old.data_entry_label,
    }
    &&& new.data_entry_placeholder == match req.data_entry_placeholder {
        Some(v) => v,
        None => old.data_entry_placeholder,
    }
    &&& new.data_entry_format == match req.data_entry_format {
        Some(v) => v,
        None => old.data_entry_format,
    }
    &&& new.sort_order == match req.sort_order {
        Some(v) => v,
        None => old.sort_order,
    }
    &&& new.is_active == match req.is_active {
        Some(v) => v,
        None => old.is_active,
    }
    &&& new.created_at == old.created_at
    &&& new.updated_at == now
}

/// The entry a creation request makes at `now`: every given field as given,
/// active, created and updated at `now`.
pub open spec fn program_created(req: CreateProgramRequest, row: ProgramRow, now: i64) -> bool {
    &&& row.slug == req.slug
    &&& row.name == req.name
    &&& row.short_name == req.short_name
    &&& row.icon == req.icon
    &&& row.icon_url == req.icon_url
    &&& row.website == req.website
    &&& row.server_base_url == req.server_base_url
    &&& row.reference_label == req.reference_label
    &&& row.reference_format == req.reference_format
    &&& row.reference_example == req.reference_example
    &&& row.multi_ref_allowed == req.multi_ref_allowed
    &&& row.activation_threshold == req.activation_threshold
    &&& row.supports_rove == req.supports_rove
    &&& row.capabilities@ == req.capabilities@
    &&& row.adif_my_sig == req.adif_my_sig
    &&& row.adif_my_sig_info == req.adif_my_sig_info
    &&& row.adif_sig_field == req.adif_sig_field
    &&& row.adif_sig_info_field == req.adif_sig_info_field
    &&& row.data_entry_label == req.data_entry_label
    &&& row.data_entry_placeholder == req.data_entry_placeholder
    &&& row.data_entry_format == req.data_entry_format
    &&& row.sort_order == req.sort_order
    &&& row.is_active
    &&& row.created_at == now
    &&& row.updated_at == now
}

impl ProgramRow {
    /// A new catalog entry from a creation request.
    pub fn from_request(req: &CreateProgramRequest, now: i64) -> (r: ProgramRow)
        ensures
            program_created(*req, r, now),
    {
        ProgramRow {
            slug: req.slug.clone(),
            name: req.name.clone(),
            short_name: req.short_name.clone(),
            icon: req.icon.clone(),
            icon_url: copy_opt(&req.icon_url),
            website: copy_opt(&req.website),
            server_base_url: copy_opt(&req.server_base_url),
            reference_label: req.reference_label.clone(),
            reference_format: copy_opt(&req.reference_format),
            reference_example: copy_opt(&req.reference_example),
            multi_ref_allowed: req.multi_ref_allowed,
            activation_threshold: req.activation_threshold,
            supports_rove: req.supports_rove,
            capabilities: copy_strings(&req.capabilities),
            adif_my_sig: copy_opt(&req.adif_my_sig),
            adif_my_sig_info: copy_opt(&req.adif_my_sig_info),
            adif_sig_field: copy_opt(&req.adif_sig_field),
            adif_sig_info_field: copy_opt(&req.adif_sig_info_field),
            data_entry_label: copy_opt(&req.data_entry_label),
            data_entry_placeholder: copy_opt(&req.data_entry_placeholder),
            data_entry_format: copy_opt(&req.data_entry_format),
            sort_order: req.sort_order,
            is_active: true,
            created_at: now,
            updated_at: now,
        }
    }
}

fn set_text(field: &mut String, change: &Option<String>)
    ensures
        *final(field) == match *change {
            Some(v) => v,
            None => *old(field),
        },
{
    match change {
        Some(v) => {
            *field = v.clone();
        },
        None => {},
    }
}

fn set_opt_text(field: &mut Option<String>, change: &Option<Option<String>>)
    ensures
        *final(field) == match *change {
            Some(v) => v,
            None => *old(field),
        },
{
    match change {
        Some(v) => {
            *field = copy_opt(v);
        },
        None => {},
    }
}

fn set_flag(field: &mut bool, change: &Option<bool>)
    ensures
        *final(field) == match *change {
            Some(v) => v,
            None => *old(field),
        },
{
    match change {
        Some(v) => {
            *field = *v;
        },
        None => {},
    }
}

fn set_number(field: &mut i32, change: &Option<i32>)
    ensures
        *final(field) == match *change {
            Some(v) => v,
            None => *old(field),
        },
{
    match change {
        Some(v) => {
            *field = *v;
        },
        None => {},
    }
}

fn set_opt_number(field: &mut Option<i32>, change: &Option<Option<i32>>)
    ensures
        *final(field) == match *change {
            Some(v) => v,
            None => *old(field),
        },
{
    match change {
        Some(v) => {
            *field = *v;
        },
        None => {},
    }
}

fn set_list(field: &mut Vec<String>, change: &Option<Vec<String>>)
    ensures
        final(field)@ == match *change {
            Some(v) => v@,
            None => old(field)@,
        },
{
    match change {
        Some(v) => {
            *field = copy_strings(v);
        },
        None => {},
    }
}

/// Makes the changes a request asks for to a catalog entry.
pub fn update_program(row: &mut ProgramRow, req: &UpdateProgramRequest, now: i64)
    ensures
        program_updated(*old(row), *final(row), *req, now),
{
    set_text(&mut row.name, &req.name);
    set_text(&mut row.short_name, &req.short_name);
    set_text(&mut row.icon, &req.icon);
    set_opt_text(&mut row.icon_url, &req.icon_url);
    set_opt_text(&mut row.website, &req.website);
    set_opt_text(&mut row.server_base_url, &req.server_base_url);
    set_text(&mut row.reference_label, &req.reference_label);
    set_opt_text(&mut row.reference_format, &req.reference_format);
    set_opt_text(&mut row.reference_example, &req.reference_example);
    set_flag(&mut row.multi_ref_allowed, &req.multi_ref_allowed);
    set_opt_number(&mut row.activation_threshold, &req.activation_threshold);
    set_flag(&mut row.supports_rove, &req.supports_rove);
    set_list(&mut row.capabilities, &req.capabilities);
    set_opt_text(&mut row.adif_my_sig, &req.adif_my_sig);
    set_opt_text(&mut row.adif_my_sig_info, &req.adif_my_sig_info);
    set_opt_text(&mut row.adif_sig_field, &req.adif_sig_field);
    set_opt_text(&mut row.adif_sig_info_field, &req.adif_sig_info_field);
    set_opt_text(&mut row.data_entry_label, &req.data_entry_label);
    set_opt_text(&mut row.data_entry_placeholder, &req.data_entry_placeholder);
    set_opt_text(&mut row.data_entry_format, &req.data_entry_format);
    set_number(&mut row.sort_order, &req.sort_order);
    set_flag(&mut row.is_active, &req.is_active);
    row.updated_at = now;
}

} // verus!
