//! The app store: installed apps are blobs listed in a manifest of their
//! metadata, one entry per app id.
use vstd::prelude::*;
use vstd::string::StringExecFns;

verus! {

#[derive(Debug, Clone, PartialEq)]
pub struct AppMeta {
    pub id: String,
    pub name: String,
    pub version: u16,
}

/// A manifest entry as values: id, name, version.
pub open spec fn entry(meta: AppMeta) -> (Seq<char>, Seq<char>, u16) {
    (meta.id@, meta.name@, meta.version)
}

pub open spec fn entries(manifest: Seq<AppMeta>) -> Seq<(Seq<char>, Seq<char>, u16)> {
    manifest.map_values(|meta: AppMeta| entry(meta))
}

#[derive(Debug, Clone, PartialEq)]
pub enum StoreError {
    NotFound,
    Io(String),
    Corrupt(String),
    Full,
    Unsupported(String),
}

pub open spec fn store_error_text(error: StoreError) -> Seq<char> {
    match error {
        StoreError::NotFound => "not found"@,
        StoreError::Io(message) => "io error: "@ + message@,
        StoreError::Corrupt(message) => "corrupt store: "@ + message@,
        StoreError::Full => "store full"@,
        StoreError::Unsupported(message) => "unsupported: "@ + message@,
    }
}

impl StoreError {
    /// The error as a sentence.
    pub fn to_string(&self) -> (text: String)
        ensures
            text@ == store_error_text(*self),
    {
        match self {
            StoreError::NotFound => String::from_str("not found"),
            StoreError::Io(message) => {
                let mut text = String::from_str("io error: ");
                text.append(message.as_str());
                text
            },
            StoreError::Corrupt(message) => {
                let mut text = String::from_str("corrupt store: ");
                text.append(message.as_str());
                text
            },
            StoreError::Full => String::from_str("store full"),
            StoreError::Unsupported(message) => {
                let mut text = String::from_str("unsupported: ");
                text.append(message.as_str());
                text
            },
        }
    }
}

/// The blob store of installed apps and their index.
pub trait AppStore {
    fn list(&self) -> Result<Vec<AppMeta>, StoreError>;

    fn read(&self, id: &str) -> Result<Vec<u8>, StoreError>;

    fn install(&mut self, meta: AppMeta, bytes: &[u8]) -> Result<(), StoreError>;

    fn uninstall(&mut self, id: &str) -> Result<(), StoreError>;
}

/// The entries whose id is not `id`, in order.
pub open spec fn without_id(manifest: Seq<(Seq<char>, Seq<char>, u16)>, id: Seq<char>) -> Seq<
    (Seq<char>, Seq<char>, u16),
>
    decreases manifest.len(),
{
    if manifest.len() == 0 {
        manifest
    } else {
        let rest = without_id(manifest.drop_last(), id);
        if manifest.last().0 == id {
            rest
        } else {
            rest.push(manifest.last())
        }
    }
}

/// Some entry has id `id`.
pub open spec fn has_id(manifest: Seq<(Seq<char>, Seq<char>, u16)>, id: Seq<char>) -> bool {
    exists|i: int| 0 <= i < manifest.len() && (#[trigger] manifest[i]).0 == id
}

/// Keeps the entries of `manifest` whose id is not `id`, and reports
/// whether one was dropped.
pub fn remove_entry(manifest: Vec<AppMeta>, id: &str) -> (r: (Vec<AppMeta>, bool))
    ensures
        entries(r.0@) == without_id(entries(manifest@), id@),
        r.1 == has_id(entries(manifest@), id@),
{
    let ghost model = entries(manifest@);
    let target = String::from_str(id);
    let mut kept: Vec<AppMeta> = Vec::new();
    let mut dropped = false;
    let mut source = manifest;
    let ghost mut i: int = 0;
    assert(model.take(0) =~= Seq::<(Seq<char>, Seq<char>, u16)>::empty());
    assert(entries(source@) =~= model.skip(0));
    while source.len() > 0
        invariant
            0 <= i <= model.len(),
            source@.len() == model.len() - i,
            entries(source@) == model.skip(i),
            target@ == id@,
            entries(kept@) == without_id(model.take(i), id@),
            dropped == exists|j: int| 0 <= j < i && (#[trigger] model[j]).0 == id@,
        decreases source@.len(),
    {
        let ghost rest = source@;
        let meta = source.remove(0);
        assert(entry(meta) == entries(rest)[0]);
        assert(model.skip(i)[0] == model[i]);
        assert forall|k: int| 0 <= k < source@.len() implies entries(source@)[k] == model.skip(i + 1)[k] by {
            assert(source@[k] == rest[k + 1]);
            assert(entries(rest)[k + 1] == model.skip(i)[k + 1]);
        }
        assert(entries(source@) =~= model.skip(i + 1));
        assert(model.take(i + 1).drop_last() =~= model.take(i));
        assert(model.take(i + 1).last() == model[i]);
        if meta.id == target {
            dropped = true;
        } else {
            let ghost before = kept@;
            kept.push(meta);
            assert(entries(kept@) =~= entries(before).push(model[i]));
        }
        proof {
            i = i + 1;
        }
    }
    assert(model.take(i) =~= model);
    (kept, dropped)
}

/// The manifest after installing `meta`: an entry with its id leaves, and
/// `meta` joins at the end.
pub fn add_entry(manifest: Vec<AppMeta>, meta: AppMeta) -> (updated: Vec<AppMeta>)
    ensures
        entries(updated@) == without_id(entries(manifest@), meta.id@).push(entry(meta)),
{
    let (mut kept, _) = remove_entry(manifest, meta.id.as_str());
    let ghost before = kept@;
    kept.push(meta);
    assert(entries(kept@) =~= entries(before).push(entry(meta)));
    kept
}

/// Uninstalling succeeds when it removed the blob or a manifest entry, and
/// answers `NotFound` when there was neither.
pub fn uninstall_verdict(blob_removed: bool, had_entry: bool) -> (r: Result<(), StoreError>)
    ensures
        r is Ok <==> (blob_removed || had_entry),
        r matches Err(e) ==> e is NotFound,
{
    if !blob_removed && !had_entry {
        Err(StoreError::NotFound)
    } else {
        Ok(())
    }
}

/// Installing replaces any app with the same id: afterwards exactly one
/// entry has that id, and it is the installed one.
pub proof fn lemma_install_replaces(manifest: Seq<(Seq<char>, Seq<char>, u16)>, installed: (Seq<char>, Seq<char>, u16))
    ensures
        !has_id(without_id(manifest, installed.0), installed.0),
        without_id(manifest, installed.0).push(installed).last() == installed,
    decreases manifest.len(),
{
    if manifest.len() > 0 {
        lemma_install_replaces(manifest.drop_last(), installed);
    }
}

} // verus!
