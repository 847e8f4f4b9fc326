use vstd::prelude::*;

verus! {

/// Names the result of `str::to_lowercase`.
pub uninterp spec fn lower_of(s: Seq<char>) -> Seq<char>;

/// Relies on `str::to_lowercase`: the result depends on the characters alone.
#[verifier::external_body]
pub(crate) fn lowercase(s: &str) -> (r: String)
    ensures
        r@ == lower_of(s@),
{
    s.to_lowercase()
}

/// Length of `p[..n]` once trailing separators and trailing `.` segments are removed.
pub open spec fn trim_len(p: Seq<char>, n: nat) -> nat
    decreases n,
{
    if n > 0 && n <= p.len() && (p[n - 1] == '/' || (n >= 2 && p[n - 1] == '.' && p[n - 2] == '/')) {
        trim_len(p, (n - 1) as nat)
    } else {
        n
    }
}

/// Start of the segment that ends at `n`.
pub open spec fn seg_start(p: Seq<char>, n: nat) -> nat
    decreases n,
{
    if n > 0 && n <= p.len() && p[n - 1] != '/' {
        seg_start(p, (n - 1) as nat)
    } else {
        n
    }
}

/// Position of the last `.` in `p[lo..n]`.
pub open spec fn last_dot(p: Seq<char>, lo: nat, n: nat) -> Option<nat>
    decreases n,
{
    if n <= lo || n > p.len() {
        None
    } else if p[n - 1] == '.' {
        Some((n - 1) as nat)
    } else {
        last_dot(p, lo, (n - 1) as nat)
    }
}

/// Bounds `(start, end)` of the file name of `p`: its last segment, unless that is
/// missing, `.` or `..`.
pub open spec fn name_bounds(p: Seq<char>) -> Option<(nat, nat)> {
    let e = trim_len(p, p.len());
    let s = seg_start(p, e);
    let name = p.subrange(s as int, e as int);
    if s == e || name == seq!['.'] || name == seq!['.', '.'] {
        None
    } else {
        Some((s, e))
    }
}

/// The file name of `p`, if it has one.
pub open spec fn file_name(p: Seq<char>) -> Option<Seq<char>> {
    match name_bounds(p) {
        Some((s, e)) => Some(p.subrange(s as int, e as int)),
        None => None,
    }
}

/// Bounds of the extension of `p`: what follows the last `.` of the file name,
/// where that `.` is not the name's first character.
pub open spec fn ext_bounds(p: Seq<char>) -> Option<(nat, nat)> {
    match name_bounds(p) {
        Some((s, e)) => match last_dot(p, s, e) {
            Some(k) => if k > s {
                Some((k + 1, e))
            } else {
                None
            },
            None => None,
        },
        None => None,
    }
}

/// The extension of `p`, if it has one.
pub open spec fn extension(p: Seq<char>) -> Option<Seq<char>> {
    match ext_bounds(p) {
        Some((a, b)) => Some(p.subrange(a as int, b as int)),
        None => None,
    }
}

/// `name` stands in `p` at `i` as a whole segment (a `.` segment counts only at the
/// start of the path).
pub open spec fn segment_at(p: Seq<char>, name: Seq<char>, i: int) -> bool {
    (name == seq!['.'] ==> i == 0) && 0 <= i && i + name.len() <= p.len() && (i == 0 || p[i - 1] == '/') && (i + name.len()
        == p.len() || p[i + name.len()] == '/') && p.subrange(i, i + name.len()) == name
}

/// `name` is one of the segments of `p`.
pub open spec fn has_segment(p: Seq<char>, name: Seq<char>) -> bool {
    &&& name.len() > 0
    &&& !name.contains('/')
    &&& exists|i: int| segment_at(p, name, i)
}

/// The characters of each string of a list.
pub open spec fn texts(v: Seq<String>) -> Seq<Seq<char>> {
    v.map_values(|s: String| s@)
}

/// Each text of a list, lower-cased.
pub open spec fn lowered_all(v: Seq<Seq<char>>) -> Seq<Seq<char>> {
    v.map_values(|t: Seq<char>| lower_of(t))
}

/// Rules that pick the files to watermark.
pub struct Rules {
    /// Names of directories whose files are left unmarked: a path with a segment
    /// equal to one of them is not eligible.
    pub excluded_dirs: Vec<String>,
    /// Prefixes of file names that are left unmarked.
    pub excluded_files: Vec<String>,
    /// Extensions of the files to watermark, in any case.
    pub authorized_extensions: Vec<String>,
}

impl Rules {
    /// Eligibility of `p`, given the lower-cased form `lowered` of its extension and
    /// the lower-cased forms `allowed` of the authorized extensions.
    pub open spec fn qualified(&self, p: Seq<char>, lowered: Seq<char>, allowed: Seq<Seq<char>>) -> bool {
        &&& extension(p) is Some
        &&& allowed.contains(lowered)
        &&& !(exists|i: int|
            0 <= i < self.excluded_files@.len() && #[trigger] self.excluded_files@[i]@.is_prefix_of(
                file_name(p)->0,
            ))
        &&& !(exists|i: int|
            0 <= i < self.excluded_dirs@.len() && has_segment(p, #[trigger] self.excluded_dirs@[i]@))
    }

    /// Eligibility of `p` under these rules.
    pub open spec fn eligible(&self, p: Seq<char>) -> bool {
        self.qualified(p, lower_of(extension(p)->0), lowered_all(texts(self.authorized_extensions@)))
    }

    /// A file is eligible when it has an extension that, lower-cased, equals a
    /// lower-cased authorized extension,
    /// its name starts with no excluded prefix, and no segment of its path is an
    /// excluded directory.
    pub fn is_file_qualified(&self, path: &str) -> (r: bool)
        ensures
            r == self.eligible(path@),
    {
        let p = chars_of(path);
        match extension_bounds(&p) {
            None => false,
            Some((a, b)) => {
                let lowered = lowercase(path.substring_char(a, b));
                let mut allowed: Vec<String> = Vec::new();
                let mut i: usize = 0;
                while i < self.authorized_extensions.len()
                    invariant
                        i <= self.authorized_extensions@.len(),
                        texts(allowed@) =~= lowered_all(texts(self.authorized_extensions@)).take(i as int),
                    decreases self.authorized_extensions@.len() - i,
                {
                    let l = lowercase(self.authorized_extensions[i].as_str());
                    assert(texts(self.authorized_extensions@)[i as int] == self.authorized_extensions@[i as int]@);
                    assert(lowered_all(texts(self.authorized_extensions@))[i as int] == l@);
                    let ghost before = allowed@;
                    allowed.push(l);
                    assert(texts(allowed@) =~= texts(before).push(l@));
                    assert(lowered_all(texts(self.authorized_extensions@)).take(i + 1) =~= lowered_all(texts(self.authorized_extensions@)).take(i as int).push(l@));
                    i = i + 1;
                }
                assert(lowered_all(texts(self.authorized_extensions@)).take(i as int) =~= lowered_all(texts(self.authorized_extensions@)));
                self.qualifies_with_lowered(path, lowered.as_str(), &allowed)
            },
        }
    }

    /// The decision of `is_file_qualified`, once the extension of `path` has been
    /// lower-cased into `lowered_ext` and each authorized extension into
    /// `lowered_allowed`.
    pub fn qualifies_with_lowered(&self, path: &str, lowered_ext: &str, lowered_allowed: &Vec<String>) -> (r: bool)
        ensures
            r == self.qualified(path@, lowered_ext@, texts(lowered_allowed@)),
    {
        let p = chars_of(path);
        if extension_bounds(&p).is_none() {
            return false;
        }
        let mut found = false;
        let mut i: usize = 0;
        while i < lowered_allowed.len()
            invariant
                i <= lowered_allowed@.len(),
                found == (exists|j: int| 0 <= j < i && lowered_allowed@[j]@ == lowered_ext@),
            decreases lowered_allowed@.len() - i,
        {
            if lowered_allowed[i].as_str().unicode_len() == lowered_ext.unicode_len()
                && same_chars(lowered_allowed[i].as_str(), lowered_ext) {
                found = true;
            }
            i = i + 1;
        }
        proof {
            if found {
                let j = choose|j: int| 0 <= j < i && lowered_allowed@[j]@ == lowered_ext@;
                assert(texts(lowered_allowed@)[j] == lowered_ext@);
            }
            if texts(lowered_allowed@).contains(lowered_ext@) {
                let j = choose|j: int| 0 <= j < texts(lowered_allowed@).len() && texts(lowered_allowed@)[j] == lowered_ext@;
                assert(lowered_allowed@[j]@ == lowered_ext@);
            }
        }
        if !found {
            return false;
        }
        let (s, e) = file_name_bounds(&p);
        let mut k: usize = 0;
        while k < self.excluded_files.len()
            invariant
                k <= self.excluded_files@.len(),
                s <= e <= p@.len(),
                p@.subrange(s as int, e as int) == file_name(path@)->0,
                p@ == path@,
                forall|j: int| 0 <= j < k ==> !#[trigger] self.excluded_files@[j]@.is_prefix_of(file_name(path@)->0),
            decreases self.excluded_files@.len() - k,
        {
            let pre = chars_of(self.excluded_files[k].as_str());
            if starts_with_at(&p, s, e, &pre) {
                return false;
            }
            k = k + 1;
        }
        let mut d: usize = 0;
        while d < self.excluded_dirs.len()
            invariant
                d <= self.excluded_dirs@.len(),
                p@ == path@,
                forall|j: int| 0 <= j < d ==> !has_segment(path@, #[trigger] self.excluded_dirs@[j]@),
            decreases self.excluded_dirs@.len() - d,
        {
            let name = chars_of(self.excluded_dirs[d].as_str());
            if contains_segment(&p, &name) {
                return false;
            }
            d = d + 1;
        }
        true
    }
}

/// Eligibility is a function of the path and the rules alone: two decisions on the
/// same path under the same rules agree.
pub proof fn lemma_eligibility_is_pure(rules: Rules, path: Seq<char>, first: bool, second: bool)
    requires
        first == rules.eligible(path),
        second == rules.eligible(path),
    ensures
        first == second,
{
}

/// The characters of `s`.
pub fn chars_of(s: &str) -> (r: Vec<char>)
    ensures
        r@ == s@,
{
    let n = s.unicode_len();
    let mut r: Vec<char> = Vec::new();
    let mut i: usize = 0;
    while i < n
        invariant
            n == s@.len(),
            i <= n,
            r@ == s@.subrange(0, i as int),
        decreases n - i,
    {
        r.push(s.get_char(i));
        i = i + 1;
        assert(r@ =~= s@.subrange(0, i as int));
    }
    assert(r@ =~= s@);
    r
}

/// Whether two strings of equal length hold the same characters.
fn same_chars(a: &str, b: &str) -> (r: bool)
    requires
        a@.len() == b@.len(),
    ensures
        r == (a@ == b@),
{
    let n = a.unicode_len();
    let mut i: usize = 0;
    while i < n
        invariant
            n == a@.len() == b@.len(),
            i <= n,
            forall|j: int| 0 <= j < i ==> a@[j] == b@[j],
        decreases n - i,
    {
        if a.get_char(i) != b.get_char(i) {
            return false;
        }
        i = i + 1;
    }
    assert(a@ =~= b@);
    true
}

/// Whether `pre` is a prefix of `p[s..e]`.
fn starts_with_at(p: &Vec<char>, s: usize, e: usize, pre: &Vec<char>) -> (r: bool)
    requires
        s <= e <= p@.len(),
    ensures
        r == pre@.is_prefix_of(p@.subrange(s as int, e as int)),
{
    if pre.len() > e - s {
        return false;
    }
    let mut i: usize = 0;
    while i < pre.len()
        invariant
            s <= e <= p@.len(),
            pre@.len() <= e - s,
            i <= pre@.len(),
            forall|j: int| 0 <= j < i ==> pre@[j] == p@[s + j],
        decreases pre@.len() - i,
    {
        if pre[i] != p[s + i] {
            assert(p@.subrange(s as int, e as int)[i as int] == p@[s + i]);
            return false;
        }
        i = i + 1;
    }
    assert(pre@ =~= p@.subrange(s as int, e as int).subrange(0, pre@.len() as int));
    true
}

/// Whether `name` stands in `p` at `i` as a whole segment.
fn matches_at(p: &Vec<char>, name: &Vec<char>, i: usize) -> (r: bool)
    requires
        i + name@.len() <= p@.len(),
    ensures
        r == segment_at(p@, name@, i as int),
{
    let plen = p.len();
    if i > 0 && name.len() == 1 && name[0] == '.' {
        assert(name@ =~= seq!['.']);
        return false;
    }
    if i > 0 && p[i - 1] != '/' {
        return false;
    }
    let end = i + name.len();
    if end < p.len() && p[end] != '/' {
        return false;
    }
    let mut j: usize = 0;
    while j < name.len()
        invariant
            i + name@.len() <= p@.len(),
            p@.len() == plen,
            j <= name@.len(),
            forall|k: int| 0 <= k < j ==> name@[k] == p@[i + k],
        decreases name@.len() - j,
    {
        if name[j] != p[i + j] {
            assert(p@.subrange(i as int, i + name@.len())[j as int] == p@[i + j]);
            return false;
        }
        j = j + 1;
    }
    assert(p@.subrange(i as int, i + name@.len()) =~= name@);
    proof {
        if name@ == seq!['.'] && i > 0 {
            assert(name@.len() == 1 && name@[0] == '.');
        }
    }
    true
}

/// Whether `name` is one of the segments of `p`.
fn contains_segment(p: &Vec<char>, name: &Vec<char>) -> (r: bool)
    ensures
        r == has_segment(p@, name@),
{
    if name.len() == 0 {
        return false;
    }
    if name.len() > p.len() {
        proof {
            assert forall|i: int| !segment_at(p@, name@, i) by {}
        }
        return false;
    }
    let mut j: usize = 0;
    while j < name.len()
        invariant
            j <= name@.len(),
            forall|k: int| 0 <= k < j ==> name@[k] != '/',
        decreases name@.len() - j,
    {
        if name[j] == '/' {
            assert(name@.contains('/'));
            return false;
        }
        j = j + 1;
    }
    let last = p.len() - name.len();
    let mut i: usize = 0;
    while i <= last
        invariant
            last + name@.len() == p@.len(),
            p@.len() <= usize::MAX,
            !name@.contains('/'),
            name@.len() > 0,
            forall|k: int| 0 <= k < i ==> !segment_at(p@, name@, k),
        decreases last + 1 - i,
    {
        if matches_at(p, name, i) {
            return true;
        }
        i = i + 1;
    }
    assert forall|k: int| !segment_at(p@, name@, k) by {
        if 0 <= k < i {
        }
    }
    false
}

/// Bounds of the file name of `p`, which must have an extension.
fn file_name_bounds(p: &Vec<char>) -> (r: (usize, usize))
    requires
        ext_bounds(p@) is Some,
    ensures
        name_bounds(p@) == Some((r.0 as nat, r.1 as nat)),
        r.0 <= r.1 <= p@.len(),
        file_name(p@) == Some(p@.subrange(r.0 as int, r.1 as int)),
{
    let (s, e, _) = scan_name(p);
    (s, e)
}

/// Trailing-separator trim and start of the last segment of `p`.
fn scan_name(p: &Vec<char>) -> (r: (usize, usize, bool))
    ensures
        r.1 == trim_len(p@, p@.len()),
        r.0 == seg_start(p@, r.1 as nat),
        r.0 <= r.1 <= p@.len(),
        r.2 == (name_bounds(p@) is Some),
{
    let mut e: usize = p.len();
    while e > 0 && (p[e - 1] == '/' || (e >= 2 && p[e - 1] == '.' && p[e - 2] == '/'))
        invariant
            e <= p@.len(),
            trim_len(p@, p@.len()) == trim_len(p@, e as nat),
        decreases e,
    {
        e = e - 1;
    }
    let mut s: usize = e;
    while s > 0 && p[s - 1] != '/'
        invariant
            s <= e <= p@.len(),
            seg_start(p@, e as nat) == seg_start(p@, s as nat),
        decreases s,
    {
        s = s - 1;
    }
    let ok = if s == e {
        false
    } else if e - s == 1 && p[s] == '.' {
        assert(p@.subrange(s as int, e as int) =~= seq!['.']);
        false
    } else if e - s == 2 && p[s] == '.' && p[s + 1] == '.' {
        assert(p@.subrange(s as int, e as int) =~= seq!['.', '.']);
        false
    } else {
        assert(p@.subrange(s as int, e as int).len() == e - s);
        if e - s == 1 {
            assert(p@.subrange(s as int, e as int)[0] == p@[s as int]);
        }
        if e - s == 2 {
            assert(p@.subrange(s as int, e as int)[0] == p@[s as int]);
            assert(p@.subrange(s as int, e as int)[1] == p@[s + 1]);
        }
        true
    };
    (s, e, ok)
}

/// Bounds of the extension of `p`, if it has one.
pub fn extension_bounds(p: &Vec<char>) -> (r: Option<(usize, usize)>)
    ensures
        match r {
            Some((a, b)) => ext_bounds(p@) == Some((a as nat, b as nat)) && a <= b <= p@.len(),
            None => ext_bounds(p@) is None,
        },
{
    let (s, e, ok) = scan_name(p);
    if !ok {
        return None;
    }
    let mut k: usize = e;
    while k > s && p[k - 1] != '.'
        invariant
            s <= k <= e <= p@.len(),
            last_dot(p@, s as nat, e as nat) == last_dot(p@, s as nat, k as nat),
        decreases k,
    {
        k = k - 1;
    }
    if k > s + 1 {
        Some((k, e))
    } else {
        None
    }
}

} // verus!
