use vstd::prelude::*;

verus! {

/// One loaded kernel driver, as the driver list shows it.
pub struct DriverInfo {
    pub name: String,
    pub load_address: u64,
    pub end_address: u64,
    pub size: u64,
    pub load_count: u32,
    pub index: u32,
    pub file_type: Option<String>,
    pub file_description: Option<String>,
    pub file_version: Option<String>,
    pub company_name: Option<String>,
    pub product_name: Option<String>,
    pub modified_date: Option<String>,
    pub created_date: Option<String>,
    pub file_path: String,
    pub file_attributes: Option<String>,
    pub service_name: Option<String>,
    pub service_display_name: Option<String>,
    /// The kind of driver, as displayed (for example "Kernel Driver").
    pub driver_type: String,
    /// The service state, as displayed (for example "Running").
    pub status: String,
    pub is_signed: Option<bool>,
    pub signer: Option<String>,
}

/// The text of an optional field, empty when absent (`as_deref().unwrap_or("")`).
pub open spec fn opt_text(o: Option<String>) -> Seq<char> {
    match o {
        Some(s) => s@,
        None => Seq::empty(),
    }
}

/// The text of an optional field, empty when absent.
pub fn text_or_empty(o: &Option<String>) -> (r: &str)
    ensures
        r@ == opt_text(*o),
{
    match o {
        Some(s) => s.as_str(),
        None => {
            proof {
                reveal_strlit("");
            }
            ""
        },
    }
}

/// A copy of an optional text field.
pub fn copy_text(o: &Option<String>) -> (r: Option<String>)
    ensures
        r == *o,
{
    match o {
        Some(s) => Some(s.clone()),
        None => None,
    }
}

impl DriverInfo {
    /// A field-by-field copy of this record.
    pub fn duplicate(&self) -> (r: DriverInfo)
        ensures
            r == *self,
    {
        DriverInfo {
            name: self.name.clone(),
            load_address: self.load_address,
            end_address: self.end_address,
            size: self.size,
            load_count: self.load_count,
            index: self.index,
            file_type: copy_text(&self.file_type),
            file_description: copy_text(&self.file_description),
            file_version: copy_text(&self.file_version),
            company_name: copy_text(&self.company_name),
            product_name: copy_text(&self.product_name),
            modified_date: copy_text(&self.modified_date),
            created_date: copy_text(&self.created_date),
            file_path: self.file_path.clone(),
            file_attributes: copy_text(&self.file_attributes),
            service_name: copy_text(&self.service_name),
            service_display_name: copy_text(&self.service_display_name),
            driver_type: self.driver_type.clone(),
            status: self.status.clone(),
            is_signed: self.is_signed,
            signer: copy_text(&self.signer),
        }
    }
}

} // verus!
