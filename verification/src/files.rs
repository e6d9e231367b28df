use vstd::prelude::*;
use vstd::string::*;
use crate::text::{eq_str, strs_view};

verus! {

/// The path that `std::path::PathBuf::push` makes of `base` and `name` on Unix: `name` alone
/// when it is absolute or `base` is empty, else the two joined by one `/`.
pub open spec fn join_path_spec(base: Seq<char>, name: Seq<char>) -> Seq<char> {
    if (name.len() > 0 && name[0] == '/') || base.len() == 0 {
        name
    } else if base.last() == '/' {
        base + name
    } else {
        base + seq!['/'] + name
    }
}

/// The path that pushing each of `parts` in turn onto an empty path makes.
pub open spec fn join_paths_spec(parts: Seq<Seq<char>>, n: nat) -> Seq<char>
    decreases n,
{
    if n == 0 {
        Seq::empty()
    } else {
        join_path_spec(join_paths_spec(parts, (n - 1) as nat), parts[n - 1])
    }
}

/// `base` with `name` pushed onto it.
pub fn join_path(base: &str, name: &str) -> (r: String)
    ensures
        r@ == join_path_spec(base@, name@),
{
    let nl = name.unicode_len();
    let bl = base.unicode_len();
    if (nl > 0 && name.get_char(0) == '/') || bl == 0 {
        String::from_str(name)
    } else if base.get_char(bl - 1) == '/' {
        let mut r = String::from_str(base);
        r.append(name);
        r
    } else {
        let mut r = String::from_str(base);
        r.append("/");
        r.append(name);
        proof {
            reveal_strlit("/");
            assert(r@ =~= base@ + seq!['/'] + name@);
        }
        r
    }
}

/// The path made of `parts`, pushed in turn onto an empty path.
pub fn join_paths(parts: &[&str]) -> (r: String)
    ensures
        r@ == join_paths_spec(strs_view(parts@), parts@.len()),
{
    let ghost v = strs_view(parts@);
    let mut r = String::new();
    let mut i: usize = 0;
    while i < parts.len()
        invariant
            i <= parts@.len(),
            v == strs_view(parts@),
            r@ == join_paths_spec(v, i as nat),
        decreases parts@.len() - i,
    {
        r = join_path(r.as_str(), parts[i]);
        i = i + 1;
    }
    r
}

/// Where the last `.` of a name stands, among its first `n` characters.
pub open spec fn last_dot(name: Seq<char>, n: nat) -> Option<nat>
    decreases n,
{
    if n == 0 {
        None
    } else if name[n - 1] == '.' {
        Some((n - 1) as nat)
    } else {
        last_dot(name, (n - 1) as nat)
    }
}

/// The extension `std::path::Path::extension` gives a file name (without `/`): the text after its
/// last `.`, unless there is no `.`, the only one starts the name, or the name is `..`.
pub open spec fn extension_spec(name: Seq<char>) -> Option<Seq<char>> {
    if name == ".."@ {
        None
    } else {
        match last_dot(name, name.len()) {
            Some(i) => if i == 0 {
                None
            } else {
                Some(name.subrange(i + 1int, name.len() as int))
            },
            None => None,
        }
    }
}

/// The extension of a file name, without the dot.
pub fn file_extension(name: &str) -> (r: Option<String>)
    ensures
        match extension_spec(name@) {
            Some(e) => r matches Some(x) && x@ == e,
            None => r is None,
        },
{
    if eq_str(name, "..") {
        return None;
    }
    let n = name.unicode_len();
    let mut i: usize = n;
    while i > 0
        invariant
            i <= n,
            n == name@.len(),
            last_dot(name@, n as nat) == last_dot(name@, i as nat),
            name@ != ".."@,
        decreases i,
    {
        if name.get_char(i - 1) == '.' {
            proof {
                assert(name@[i - 1] == '.');
                assert(last_dot(name@, i as nat) == Some((i - 1) as nat));
            }
            if i - 1 == 0 {
                return None;
            }
            let e = name.substring_char(i, n);
            proof {
                assert(name@ != ".."@);
                assert(e@ =~= name@.subrange(i as int, n as int));
            }
            return Some(String::from_str(e));
        }
        i = i - 1;
    }
    None
}

/// A file found in a packet directory: its name, its extension (without the dot) and its path.
#[derive(Debug, Clone)]
pub struct File {
    pub file_name: String,
    pub file_type: String,
    pub path: String,
}

/// The files of a packet directory, its subdirectories included.
#[derive(Debug)]
pub struct FileService {
    files: Vec<File>,
}

impl View for FileService {
    type V = Seq<File>;

    closed spec fn view(&self) -> Seq<File> {
        self.files@
    }
}

/// The indices of the PDF files among `files`, in order.
pub open spec fn pdf_indices(files: Seq<File>, n: nat) -> Seq<int>
    decreases n,
{
    if n == 0 {
        Seq::empty()
    } else if files[n - 1].file_type@ == "pdf"@ {
        pdf_indices(files, (n - 1) as nat).push(n - 1)
    } else {
        pdf_indices(files, (n - 1) as nat)
    }
}

impl Default for FileService {
    fn default() -> (s: Self)
        ensures
            s@.len() == 0,
    {
        FileService { files: Vec::new() }
    }
}

impl FileService {
    /// Records a file named `file_name` with extension `file_type` found in the directory `dir`.
    pub fn add_file(&mut self, dir: &str, file_name: &str, file_type: &str)
        ensures
            final(self)@.len() == old(self)@.len() + 1,
            final(self)@.subrange(0, old(self)@.len() as int) == old(self)@,
            final(self)@.last().file_name@ == file_name@,
            final(self)@.last().file_type@ == file_type@,
            final(self)@.last().path@ == join_path_spec(dir@, file_name@),
    {
        let f = File {
            file_name: String::from_str(file_name),
            file_type: String::from_str(file_type),
            path: join_path(dir, file_name),
        };
        self.files.push(f);
        proof {
            assert(self.files@.subrange(0, old(self)@.len() as int) =~= old(self)@);
        }
    }

    /// Takes an entry named `name` of the directory `dir`: an entry with an extension is recorded
    /// as a file; answers whether the entry is a directory (without extension) to search in turn.
    pub fn add_entry(&mut self, dir: &str, name: &str, is_dir: bool) -> (descend: bool)
        ensures
            match extension_spec(name@) {
                Some(e) => {
                    &&& !descend
                    &&& final(self)@.len() == old(self)@.len() + 1
                    &&& final(self)@.subrange(0, old(self)@.len() as int) == old(self)@
                    &&& final(self)@.last().file_name@ == name@
                    &&& final(self)@.last().file_type@ == e
                    &&& final(self)@.last().path@ == join_path_spec(dir@, name@)
                },
                None => descend == is_dir && final(self)@ == old(self)@,
            },
    {
        match file_extension(name) {
            Some(ext) => {
                self.add_file(dir, name, ext.as_str());
                false
            },
            None => is_dir,
        }
    }

    /// The PDF files among the files found, in the order they were found.
    pub fn get_pdf(&self) -> (r: Vec<&File>)
        ensures
            r@.len() == pdf_indices(self@, self@.len()).len(),
            forall|k: int| 0 <= k < r@.len() ==> *r@[k] == self@[pdf_indices(self@, self@.len())[k]],
    {
        let ghost all = self@;
        let mut r: Vec<&File> = Vec::new();
        let mut i: usize = 0;
        while i < self.files.len()
            invariant
                i <= all.len(),
                all == self.files@,
                r@.len() == pdf_indices(all, i as nat).len(),
                forall|k: int| 0 <= k < r@.len() ==> *r@[k] == all[pdf_indices(all, i as nat)[k]],
            decreases all.len() - i,
        {
            if eq_str(self.files[i].file_type.as_str(), "pdf") {
                r.push(&self.files[i]);
            }
            i = i + 1;
        }
        r
    }

    /// All the files found.
    pub fn get_list(&self) -> (r: &[File])
        ensures
            r@ == self@,
    {
        self.files.as_slice()
    }
}

/// The last `.` found is a `.`, and none follows it; without one, the name has no `.`.
pub proof fn lemma_last_dot(name: Seq<char>, n: nat)
    requires
        n <= name.len(),
    ensures
        match last_dot(name, n) {
            Some(i) => i < n && name[i as int] == '.' && forall|j: int| i < j < n ==> name[j] != '.',
            None => forall|j: int| 0 <= j < n ==> name[j] != '.',
        },
    decreases n,
{
    if n > 0 && name[n - 1] != '.' {
        lemma_last_dot(name, (n - 1) as nat);
    }
}

/// An extension is the text after the name's last `.`, which is not its first character: the
/// name is a non-empty stem, a `.` and the extension, and the extension holds no `.`. A name
/// without such a `.` (or `..`) has no extension.
pub proof fn lemma_extension_is_after_last_dot(name: Seq<char>)
    ensures
        match extension_spec(name) {
            Some(e) => {
                &&& name.len() >= e.len() + 2
                &&& name == name.subrange(0, name.len() - e.len() - 1) + seq!['.'] + e
                &&& forall|j: int| 0 <= j < e.len() ==> e[j] != '.'
            },
            None => name == ".."@ || forall|j: int| 1 <= j < name.len() ==> name[j] != '.',
        },
{
    lemma_last_dot(name, name.len());
    match extension_spec(name) {
        Some(e) => {
            let i = last_dot(name, name.len()).unwrap();
            assert(name =~= name.subrange(0, name.len() - e.len() - 1) + seq!['.'] + e);
            assert forall|j: int| 0 <= j < e.len() implies e[j] != '.' by {
                assert(e[j] == name[i + 1 + j]);
            }
        },
        None => {},
    }
}

/// The PDF files picked are PDF files, in the order they were found, and every PDF file is
/// picked.
pub proof fn lemma_pdf_indices(files: Seq<File>, n: nat)
    requires
        n <= files.len(),
    ensures
        forall|k: int|
            0 <= k < pdf_indices(files, n).len() ==> 0 <= #[trigger] pdf_indices(files, n)[k] < n
                && files[pdf_indices(files, n)[k]].file_type@ == "pdf"@,
        forall|k1: int, k2: int|
            0 <= k1 < k2 < pdf_indices(files, n).len() ==> pdf_indices(files, n)[k1] < pdf_indices(
                files,
                n,
            )[k2],
        forall|i: int|
            0 <= i < n && (#[trigger] files[i]).file_type@ == "pdf"@ ==> pdf_indices(files, n).contains(i),
    decreases n,
{
    if n > 0 {
        lemma_pdf_indices(files, (n - 1) as nat);
        let prev = pdf_indices(files, (n - 1) as nat);
        let cur = pdf_indices(files, n);
        if files[n - 1].file_type@ == "pdf"@ {
            assert(cur == prev.push(n - 1));
            assert forall|k: int| 0 <= k < cur.len() implies 0 <= #[trigger] cur[k] < n
                && files[cur[k]].file_type@ == "pdf"@ by {
                if k < prev.len() {
                    assert(cur[k] == prev[k]);
                }
            }
            assert forall|k1: int, k2: int| 0 <= k1 < k2 < cur.len() implies cur[k1] < cur[k2] by {
                assert(cur[k1] == prev[k1]);
                if k2 < prev.len() {
                    assert(cur[k2] == prev[k2]);
                }
            }
            assert forall|i: int| 0 <= i < n && (#[trigger] files[i]).file_type@ == "pdf"@ implies cur.contains(i) by {
                if i < n - 1 {
                    let k = choose|k: int| 0 <= k < prev.len() && prev[k] == i;
                    assert(cur[k] == i);
                } else {
                    assert(cur[prev.len() as int] == i);
                }
            }
        }
    }
}

} // verus!
