use vstd::prelude::*;
use vstd::string::StrSliceExecFns;
use vstd::utf8::encode_utf8;

verus! {

/// The address of the remote store's list of documents.
pub const URL: &'static str = "https://api.github.com/gists";

/// One file of a document update: its new content and, optionally, its new
/// name.
pub struct FileUpdate {
    pub content: String,
    pub filename: Option<String>,
}

/// An update of a remote document: a description and the files to change,
/// each under its current name.
pub struct GistUpdate {
    pub description: Option<String>,
    pub files: Vec<(String, FileUpdate)>,
}

/// One file of a new remote document.
pub struct FilePost {
    pub content: String,
}

/// A new remote document.
pub struct GistPost {
    pub description: String,
    pub public: bool,
    pub files: Vec<(String, FilePost)>,
}

/// A file of a remote document, as the store lists it.
pub struct FileGist {
    pub name: String,
    pub type_file: Option<String>,
    pub lang: Option<String>,
    pub raw_url: String,
    pub size: u32,
}

/// A remote document, as the store lists it: its files under their names.
pub struct ResponseGist {
    pub id: String,
    pub url: String,
    pub desc: Option<String>,
    pub files: Vec<(String, FileGist)>,
}

/// The remote store's documents.
pub struct ListGist {
    pub list: Vec<ResponseGist>,
}

/// Why a document could not be found.
#[derive(Debug, PartialEq, Eq, Clone, Copy, Structural)]
pub enum GistError {
    /// The identifier searched for is shorter than five bytes.
    InvalidId,
    /// No document matches.
    NotFound,
}

/// The shortest identifier prefix searched for, in bytes.
pub const MIN_ID_LEN: usize = 5;

/// Whether an identifier is too short to search by: under five bytes in
/// UTF-8, as `str::len` counts them.
pub open spec fn id_too_short(id: Seq<char>) -> bool {
    (encode_utf8(id).len() as usize) < MIN_ID_LEN
}

/// Whether `p` is a prefix of `s`.
pub open spec fn is_prefix_of(p: Seq<char>, s: Seq<char>) -> bool {
    p.len() <= s.len() && s.subrange(0, p.len() as int) == p
}

/// Whether `s` starts with `p`, character by character.
fn starts_with(s: &str, p: &str) -> (r: bool)
    ensures
        r == is_prefix_of(p@, s@),
{
    let n = s.unicode_len();
    let m = p.unicode_len();
    if m > n {
        return false;
    }
    let mut i: usize = 0;
    while i < m
        invariant
            m <= n,
            n == s@.len(),
            m == p@.len(),
            i <= m,
            forall|k: int| 0 <= k < i ==> s@[k] == p@[k],
        decreases m - i,
    {
        if s.get_char(i) != p.get_char(i) {
            proof {
                assert(s@.subrange(0, m as int)[i as int] != p@[i as int]);
            }
            return false;
        }
        i = i + 1;
    }
    proof {
        assert(s@.subrange(0, m as int) =~= p@);
    }
    true
}

/// The same optional string, separately owned.
fn copy_text(s: &Option<String>) -> (r: Option<String>)
    ensures
        r == *s,
{
    match s {
        Some(t) => Some(t.clone()),
        None => None,
    }
}

impl FileGist {
    /// The same file entry, separately owned.
    pub fn duplicate(&self) -> (r: FileGist)
        ensures
            r == *self,
    {
        FileGist {
            name: self.name.clone(),
            type_file: copy_text(&self.type_file),
            lang: copy_text(&self.lang),
            raw_url: self.raw_url.clone(),
            size: self.size,
        }
    }
}

impl ResponseGist {
    /// The same document entry, separately owned.
    pub fn duplicate(&self) -> (r: ResponseGist)
        ensures
            r.id == self.id,
            r.url == self.url,
            r.desc == self.desc,
            r.files@ == self.files@,
    {
        let mut files: Vec<(String, FileGist)> = Vec::new();
        let mut i: usize = 0;
        while i < self.files.len()
            invariant
                i <= self.files@.len(),
                files@ == self.files@.subrange(0, i as int),
            decreases self.files@.len() - i,
        {
            let entry = &self.files[i];
            files.push((entry.0.clone(), entry.1.duplicate()));
            proof {
                assert(files@ =~= self.files@.subrange(0, i as int + 1));
            }
            i = i + 1;
        }
        ResponseGist {
            id: self.id.clone(),
            url: self.url.clone(),
            desc: copy_text(&self.desc),
            files,
        }
    }

    /// The names of this document's files, in order.
    pub fn file_names(&self) -> (r: Vec<String>)
        ensures
            r@.len() == self.files@.len(),
            forall|i: int| 0 <= i < r@.len() ==> #[trigger] r@[i] == self.files@[i].1.name,
    {
        let mut names: Vec<String> = Vec::new();
        let mut i: usize = 0;
        while i < self.files.len()
            invariant
                i <= self.files@.len(),
                names@.len() == i,
                forall|k: int| 0 <= k < i ==> #[trigger] names@[k] == self.files@[k].1.name,
            decreases self.files@.len() - i,
        {
            names.push(self.files[i].1.name.clone());
            i = i + 1;
        }
        names
    }
}

impl GistUpdate {
    /// An update that gives the file now named `old_name` the content
    /// `cont` and, when `new_name` is given, that new name; `desc` becomes
    /// the document's description.
    pub fn new(cont: String, desc: String, old_name: String, new_name: Option<String>) -> (r: Self)
        ensures
            r.description == Some(desc),
            r.files@.len() == 1,
            r.files@[0].0 == old_name,
            r.files@[0].1.content == cont,
            r.files@[0].1.filename == new_name,
    {
        let mut files: Vec<(String, FileUpdate)> = Vec::new();
        files.push((old_name, FileUpdate { content: cont, filename: new_name }));
        GistUpdate { description: Some(desc), files }
    }
}

/// The index of the first document whose identifier starts with `p`.
pub open spec fn first_with_prefix(list: Seq<ResponseGist>, p: Seq<char>, k: int) -> bool {
    &&& 0 <= k < list.len()
    &&& is_prefix_of(p, list[k].id@)
    &&& forall|j: int| 0 <= j < k ==> !is_prefix_of(p, (#[trigger] list[j]).id@)
}

/// Whether a document has identifier `id` and a file named `file`, at
/// position `j` of its files.
pub open spec fn holds_file(g: ResponseGist, id: Seq<char>, file: Seq<char>, j: int) -> bool {
    &&& g.id@ == id
    &&& 0 <= j < g.files@.len()
    &&& g.files@[j].1.name@ == file
}

/// Whether some document with identifier `id` has a file named `file`.
pub open spec fn has_file(list: Seq<ResponseGist>, id: Seq<char>, file: Seq<char>) -> bool {
    exists|k: int, j: int| 0 <= k < list.len() && #[trigger] holds_file(list[k], id, file, j)
}

/// File `j` of document `k` is the first file named `file` in a document
/// with identifier `id`, documents and their files taken in order.
pub open spec fn first_file(
    list: Seq<ResponseGist>,
    id: Seq<char>,
    file: Seq<char>,
    k: int,
    j: int,
) -> bool {
    &&& 0 <= k < list.len()
    &&& holds_file(list[k], id, file, j)
    &&& forall|k2: int, j2: int|
        0 <= k2 < list.len() && (k2 < k || (k2 == k && j2 < j)) ==> !(#[trigger] holds_file(
            list[k2],
            id,
            file,
            j2,
        ))
}

impl ListGist {
    pub fn new(list: Vec<ResponseGist>) -> (r: ListGist)
        ensures
            r.list == list,
    {
        ListGist { list }
    }

    /// The position of the first document whose identifier starts with
    /// `id`; an identifier under five bytes is refused.
    pub fn find_by_prefix(&self, id: &str) -> (r: Result<usize, GistError>)
        ensures
            id_too_short(id@) ==> r == Err::<usize, GistError>(
                GistError::InvalidId,
            ),
            !id_too_short(id@) ==> (r is Err ==> r == Err::<usize, GistError>(
                GistError::NotFound,
            )),
            !id_too_short(id@) ==> (r == Err::<usize, GistError>(
                GistError::NotFound,
            ) <==> forall|k: int|
                0 <= k < self.list@.len() ==> !is_prefix_of(id@, (#[trigger] self.list@[k]).id@)),
            r is Ok ==> first_with_prefix(self.list@, id@, r->Ok_0 as int),
    {
        if id.len() < MIN_ID_LEN {
            return Err(GistError::InvalidId);
        }
        let mut i: usize = 0;
        while i < self.list.len()
            invariant
                i <= self.list@.len(),
                id.len() >= MIN_ID_LEN,
                forall|j: int| 0 <= j < i ==> !is_prefix_of(id@, (#[trigger] self.list@[j]).id@),
            decreases self.list@.len() - i,
        {
            if starts_with(self.list[i].id.as_str(), id) {
                return Ok(i);
            }
            i = i + 1;
        }
        Err(GistError::NotFound)
    }

    /// The address of the first document whose identifier starts with `id`.
    pub fn search_url_gist(&self, id: &str) -> (r: Result<String, GistError>)
        ensures
            id_too_short(id@) ==> r == Err::<String, GistError>(
                GistError::InvalidId,
            ),
            !id_too_short(id@) ==> (r is Err ==> r == Err::<String, GistError>(
                GistError::NotFound,
            )),
            !id_too_short(id@) ==> (r is Err <==> forall|k: int|
                0 <= k < self.list@.len() ==> !is_prefix_of(id@, (#[trigger] self.list@[k]).id@)),
            r is Ok ==> exists|k: int|
                first_with_prefix(self.list@, id@, k) && r->Ok_0 == #[trigger] self.list@[k].url,
    {
        match self.find_by_prefix(id) {
            Ok(k) => Ok(self.list[k].url.clone()),
            Err(e) => Err(e),
        }
    }

    /// The first document whose identifier starts with `id`.
    pub fn search_gist(&self, id: &str) -> (r: Result<ResponseGist, GistError>)
        ensures
            id_too_short(id@) ==> r is Err && r->Err_0 == GistError::InvalidId,
            !id_too_short(id@) ==> (r is Err ==> r->Err_0 == GistError::NotFound),
            !id_too_short(id@) ==> (r is Err <==> forall|k: int|
                0 <= k < self.list@.len() ==> !is_prefix_of(id@, (#[trigger] self.list@[k]).id@)),
            r is Ok ==> exists|k: int|
                first_with_prefix(self.list@, id@, k) && r->Ok_0.id == (#[trigger] self.list@[k]).id
                    && r->Ok_0.url == self.list@[k].url && r->Ok_0.desc == self.list@[k].desc
                    && r->Ok_0.files@ == self.list@[k].files@,
    {
        match self.find_by_prefix(id) {
            Ok(k) => Ok(self.list[k].duplicate()),
            Err(e) => Err(e),
        }
    }

    /// The raw address of the file named `file` in the document whose
    /// identifier is `id`: the first such file, documents and their files
    /// taken in order.
    pub fn get_url_gist_file(&self, id: &str, file: &str) -> (r: Result<String, GistError>)
        ensures
            r is Err ==> r->Err_0 == GistError::NotFound,
            r is Err <==> !has_file(self.list@, id@, file@),
            r is Ok ==> exists|k: int, j: int|
                #[trigger] first_file(self.list@, id@, file@, k, j) && r->Ok_0
                    == self.list@[k].files@[j].1.raw_url,
    {
        let id_owned = id.to_owned();
        let file_owned = file.to_owned();
        let mut i: usize = 0;
        while i < self.list.len()
            invariant
                i <= self.list@.len(),
                id_owned@ == id@,
                file_owned@ == file@,
                forall|k2: int, j2: int|
                    0 <= k2 < i ==> !(#[trigger] holds_file(self.list@[k2], id@, file@, j2)),
            decreases self.list@.len() - i,
        {
            let gist = &self.list[i];
            if gist.id == id_owned {
                let mut j: usize = 0;
                while j < gist.files.len()
                    invariant
                        i < self.list@.len(),
                        *gist == self.list@[i as int],
                        gist.id@ == id@,
                        j <= gist.files@.len(),
                        id_owned@ == id@,
                        file_owned@ == file@,
                        forall|k2: int, j2: int|
                            0 <= k2 < i ==> !(#[trigger] holds_file(self.list@[k2], id@, file@, j2)),
                        forall|j2: int|
                            0 <= j2 < j ==> !(#[trigger] holds_file(self.list@[i as int], id@, file@, j2)),
                    decreases gist.files@.len() - j,
                {
                    if gist.files[j].1.name == file_owned {
                        proof {
                            assert(holds_file(self.list@[i as int], id@, file@, j as int));
                            assert(first_file(self.list@, id@, file@, i as int, j as int));
                        }
                        return Ok(gist.files[j].1.raw_url.clone());
                    }
                    j = j + 1;
                }
                proof {
                    assert forall|k2: int, j2: int|
                        0 <= k2 < i + 1 implies !(#[trigger] holds_file(self.list@[k2], id@, file@, j2)) by {
                        if k2 == i && 0 <= j2 < j {
                            assert(!holds_file(self.list@[i as int], id@, file@, j2));
                        }
                    }
                }
            }
            i = i + 1;
        }
        Err(GistError::NotFound)
    }
}

} // verus!
