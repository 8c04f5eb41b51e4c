use vstd::prelude::*;

verus! {

/// Mathematical model of one cache record: the identifier and URL as
/// character sequences, and the expiry instant as an unbounded integer.
pub ghost struct EntryModel {
    pub id: Seq<char>,
    pub url: Seq<char>,
    pub expiration: int,
}

/// One persisted cache record: a media item identifier, the hosted image URL
/// obtained from a prior upload, and the absolute Unix second after which the
/// record must no longer be reused.
pub struct ImageUrl {
    pub id: String,
    pub url: String,
    pub expiration_from_unix_seconds: usize,
}

impl View for ImageUrl {
    type V = EntryModel;

    open spec fn view(&self) -> EntryModel {
        EntryModel {
            id: self.id@,
            url: self.url@,
            expiration: self.expiration_from_unix_seconds as int,
        }
    }
}

/// The models of a sequence of records, element by element.
pub open spec fn models(es: Seq<ImageUrl>) -> Seq<EntryModel> {
    es.map_values(|e: ImageUrl| e@)
}

impl ImageUrl {
    /// Builds a record from its three parts.
    pub fn new(id: String, url: String, expiration: usize) -> (r: Self)
        ensures
            r.id == id,
            r.url == url,
            r.expiration_from_unix_seconds == expiration,
    {
        Self { id, url, expiration_from_unix_seconds: expiration }
    }

    /// The expiry instant as a number of seconds since the Unix epoch.
    pub fn expiration_as_duration(&self) -> (r: u64)
        ensures
            r == self.expiration_from_unix_seconds as u64,
    {
        self.expiration_from_unix_seconds as u64
    }
}

} // verus!
