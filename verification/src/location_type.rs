//! The catalog of supported repository location types: each backend's
//! address-prefix token, display name and required credential variables.

use vstd::prelude::*;

use crate::text::views_of;

verus! {

/// A supported repository location type.
#[derive(Clone, Copy, PartialEq, Eq, Structural, Debug)]
pub enum LocationType {
    Local,
    SFtp,
    Rest,
    RClone,
    AmazonS3,
    MSAzure,
    Backblaze,
    GoogleCloudStorage,
}

/// Additional info for a repository location type, as consumed by a frontend.
#[derive(Debug)]
pub struct LocationTypeInfo {
    pub location_type: LocationType,
    pub prefix: String,
    pub display_name: String,
    pub credentials: Vec<String>,
}

/// Number of catalog rows.
pub open spec fn catalog_len() -> int {
    8
}

/// The location type of catalog row `i`.
pub open spec fn catalog_type(i: int) -> LocationType {
    if i == 0 {
        LocationType::Local
    } else if i == 1 {
        LocationType::SFtp
    } else if i == 2 {
        LocationType::Rest
    } else if i == 3 {
        LocationType::RClone
    } else if i == 4 {
        LocationType::AmazonS3
    } else if i == 5 {
        LocationType::MSAzure
    } else if i == 6 {
        LocationType::Backblaze
    } else {
        LocationType::GoogleCloudStorage
    }
}

/// The address-prefix token of catalog row `i`.
pub open spec fn catalog_prefix(i: int) -> Seq<char> {
    if i == 0 {
        ""@
    } else if i == 1 {
        "sftp"@
    } else if i == 2 {
        "rest"@
    } else if i == 3 {
        "rclone"@
    } else if i == 4 {
        "s3"@
    } else if i == 5 {
        "azure"@
    } else if i == 6 {
        "b2"@
    } else {
        "gs"@
    }
}

/// The display name of catalog row `i`.
pub open spec fn catalog_display_name(i: int) -> Seq<char> {
    if i == 0 {
        "Local Path"@
    } else if i == 1 {
        "SFTP"@
    } else if i == 2 {
        "REST Server"@
    } else if i == 3 {
        "RCLONE"@
    } else if i == 4 {
        "Amazon S3"@
    } else if i == 5 {
        "Azure Blob Storage"@
    } else if i == 6 {
        "Backblaze B2"@
    } else {
        "Google Cloud Storage"@
    }
}

/// The environment-variable names required by catalog row `i`.
pub open spec fn catalog_credentials(i: int) -> Seq<Seq<char>> {
    if i == 2 {
        seq!["RESTIC_REST_USERNAME"@, "RESTIC_REST_PASSWORD"@]
    } else if i == 4 {
        seq!["AWS_ACCESS_KEY_ID"@, "AWS_SECRET_ACCESS_KEY"@]
    } else if i == 5 {
        seq!["AZURE_ACCOUNT_NAME"@, "AZURE_ACCOUNT_KEY"@]
    } else if i == 6 {
        seq!["B2_ACCOUNT_ID"@, "B2_ACCOUNT_KEY"@]
    } else if i == 7 {
        seq!["GOOGLE_PROJECT_ID"@, "GOOGLE_APPLICATION_CREDENTIALS"@]
    } else {
        Seq::empty()
    }
}

/// Whether `info` is catalog row `i`.
pub open spec fn is_catalog_row(info: LocationTypeInfo, i: int) -> bool {
    &&& info.location_type == catalog_type(i)
    &&& info.prefix@ == catalog_prefix(i)
    &&& info.display_name@ == catalog_display_name(i)
    &&& views_of(info.credentials@) == catalog_credentials(i)
}

impl LocationTypeInfo {
    /// Builds one catalog row from borrowed parts.
    pub fn new(
        location_type: LocationType,
        prefix: &str,
        display_name: &str,
        credentials: Vec<&str>,
    ) -> (r: LocationTypeInfo)
        ensures
            r.location_type == location_type,
            r.prefix@ == prefix@,
            r.display_name@ == display_name@,
            views_of(r.credentials@) == credentials@.map_values(|c: &str| c@),
    {
        let mut creds: Vec<String> = Vec::new();
        let mut i: usize = 0;
        while i < credentials.len()
            invariant
                0 <= i <= credentials@.len(),
                views_of(creds@) == credentials@.take(i as int).map_values(|c: &str| c@),
            decreases credentials@.len() - i,
        {
            let ghost creds0 = creds@;
            creds.push(credentials[i].to_owned());
            proof {
                assert(views_of(creds@) =~~= creds0.map_values(|t: String| t@).push(
                    credentials@[i as int]@,
                ));
                assert(credentials@.take(i + 1) =~= credentials@.take(i as int).push(
                    credentials@[i as int],
                ));
                assert(views_of(creds@) =~~= credentials@.take(i + 1).map_values(|c: &str| c@));
            }
            i = i + 1;
        }
        proof {
            assert(credentials@.take(credentials@.len() as int) =~= credentials@);
        }
        LocationTypeInfo {
            location_type,
            prefix: prefix.to_owned(),
            display_name: display_name.to_owned(),
            credentials: creds,
        }
    }
}

/// The location types supported by this launcher, in resolution order.
/// The catalog is fixed, never empty, and row 0 is the local/default entry
/// with an empty prefix.
pub fn supported_location_types() -> (r: Vec<LocationTypeInfo>)
    ensures
        r@.len() == catalog_len(),
        forall|i: int| 0 <= i < catalog_len() ==> is_catalog_row(#[trigger] r@[i], i),
{
    let mut v: Vec<LocationTypeInfo> = Vec::new();
    v.push(LocationTypeInfo::new(LocationType::Local, "", "Local Path", Vec::new()));
    v.push(LocationTypeInfo::new(LocationType::SFtp, "sftp", "SFTP", Vec::new()));
    let mut rest_creds: Vec<&str> = Vec::new();
    rest_creds.push("RESTIC_REST_USERNAME");
    rest_creds.push("RESTIC_REST_PASSWORD");
    v.push(LocationTypeInfo::new(LocationType::Rest, "rest", "REST Server", rest_creds));
    v.push(LocationTypeInfo::new(LocationType::RClone, "rclone", "RCLONE", Vec::new()));
    let mut s3_creds: Vec<&str> = Vec::new();
    s3_creds.push("AWS_ACCESS_KEY_ID");
    s3_creds.push("AWS_SECRET_ACCESS_KEY");
    v.push(LocationTypeInfo::new(LocationType::AmazonS3, "s3", "Amazon S3", s3_creds));
    let mut azure_creds: Vec<&str> = Vec::new();
    azure_creds.push("AZURE_ACCOUNT_NAME");
    azure_creds.push("AZURE_ACCOUNT_KEY");
    v.push(LocationTypeInfo::new(LocationType::MSAzure, "azure", "Azure Blob Storage", azure_creds));
    let mut b2_creds: Vec<&str> = Vec::new();
    b2_creds.push("B2_ACCOUNT_ID");
    b2_creds.push("B2_ACCOUNT_KEY");
    v.push(LocationTypeInfo::new(LocationType::Backblaze, "b2", "Backblaze B2", b2_creds));
    let mut gs_creds: Vec<&str> = Vec::new();
    gs_creds.push("GOOGLE_PROJECT_ID");
    gs_creds.push("GOOGLE_APPLICATION_CREDENTIALS");
    v.push(LocationTypeInfo::new(
        LocationType::GoogleCloudStorage,
        "gs",
        "Google Cloud Storage",
        gs_creds,
    ));
    proof {
        assert forall|i: int| 0 <= i < catalog_len() implies is_catalog_row(#[trigger] v@[i], i) by {
            assert(views_of(v@[2].credentials@) =~~= catalog_credentials(2));
            assert(views_of(v@[4].credentials@) =~~= catalog_credentials(4));
            assert(views_of(v@[5].credentials@) =~~= catalog_credentials(5));
            assert(views_of(v@[6].credentials@) =~~= catalog_credentials(6));
            assert(views_of(v@[7].credentials@) =~~= catalog_credentials(7));
            assert(views_of(v@[0].credentials@) =~~= catalog_credentials(0));
            assert(views_of(v@[1].credentials@) =~~= catalog_credentials(1));
            assert(views_of(v@[3].credentials@) =~~= catalog_credentials(3));
        }
    }
    v
}

} // verus!
