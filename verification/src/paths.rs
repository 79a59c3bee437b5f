//! Where the vault keeps its files under the application's data directory.
use vstd::prelude::*;

verus! {

/// What `std::path::Path::join` gives for a base path and a relative name,
/// as text.
pub uninterp spec fn path_join(base: Seq<char>, name: Seq<char>) -> Seq<char>;

/// `Path::new(base).join(name)`, as text (std `Path::join`). Both are UTF-8,
/// so the text of the joined path is exact.
///
/// Trusted: the result is std's join of the two, by the name `path_join`;
/// how it places separators is not stated.
#[verifier::external_body]
fn join(base: &str, name: &str) -> (result: String)
    ensures
        result@ == path_join(base@, name@),
{
    std::path::Path::new(base).join(name).to_string_lossy().into_owned()
}

/// The vault's files and directories.
#[derive(Debug)]
pub struct VaultPaths {
    pub header: String,
    pub gallery_objects: String,
    pub gallery_thumbnails: String,
    pub gallery_db: String,
    pub credentials_root: String,
    pub credentials_db: String,
    pub projects_root: String,
    pub projects_db: String,
}

/// `name` under `dir` under `vault` under the data directory.
pub open spec fn under_vault(data: Seq<char>, dir: Seq<char>, name: Seq<char>) -> Seq<char> {
    path_join(path_join(path_join(data, "vault"@), dir), name)
}

impl VaultPaths {
    /// The layout under the application's local data directory.
    pub fn new(app_local_data: &str) -> (result: Self)
        ensures
            result.header@ == path_join(path_join(app_local_data@, "vault"@), "vault-header.json"@),
            result.gallery_objects@ == under_vault(app_local_data@, "gallery"@, "objects"@),
            result.gallery_thumbnails@ == under_vault(app_local_data@, "gallery"@, "thumbnails"@),
            result.gallery_db@ == under_vault(app_local_data@, "gallery"@, "gallery.sqlite3"@),
            result.credentials_root@ == path_join(
                path_join(app_local_data@, "vault"@),
                "credentials"@,
            ),
            result.credentials_db@ == under_vault(
                app_local_data@,
                "credentials"@,
                "credentials.sqlite3"@,
            ),
            result.projects_root@ == path_join(path_join(app_local_data@, "vault"@), "projects"@),
            result.projects_db@ == under_vault(app_local_data@, "projects"@, "projects.sqlite3"@),
    {
        let root = join(app_local_data, "vault");
        let gallery_root = join(root.as_str(), "gallery");
        let credentials_root = join(root.as_str(), "credentials");
        let projects_root = join(root.as_str(), "projects");
        VaultPaths {
            header: join(root.as_str(), "vault-header.json"),
            gallery_objects: join(gallery_root.as_str(), "objects"),
            gallery_thumbnails: join(gallery_root.as_str(), "thumbnails"),
            gallery_db: join(gallery_root.as_str(), "gallery.sqlite3"),
            credentials_db: join(credentials_root.as_str(), "credentials.sqlite3"),
            projects_db: join(projects_root.as_str(), "projects.sqlite3"),
            credentials_root,
            projects_root,
        }
    }
}

} // verus!
