//! The deployment resolver: it asks for the files of each directory that
//! contributes to a deployment and groups the patch files among them into
//! triplets by hash identity.

use vstd::prelude::*;
use vstd::string::*;
use crate::errors::{DeployError, IndexError};
use crate::text::{
    chars_of,
    containing,
    decimal,
    decimal_text,
    optional_view,
    select_containing,
    views,
};

verus! {

/// The number of characters of a hash identity.
pub const HASH_LENGTH: usize = 16;

/// The number of characters of the mark `.patch_`.
pub const MARK_LENGTH: usize = 7;

/// The hash identity of a patch file: the first 16 characters of its name.
pub open spec fn patch_name(file_name: Seq<char>) -> Option<Seq<char>> {
    if file_name.len() >= HASH_LENGTH {
        Some(file_name.take(HASH_LENGTH as int))
    } else {
        None
    }
}

/// Whether a character is a decimal digit.
pub open spec fn is_digit(c: char) -> bool {
    '0' <= c && c <= '9'
}

/// How many decimal digits stand at the start of `s`.
pub open spec fn leading_digits(s: Seq<char>) -> nat
    decreases s.len(),
{
    if s.len() > 0 && is_digit(s[0]) {
        1 + leading_digits(s.drop_first())
    } else {
        0
    }
}

/// The number that a string of decimal digits writes.
pub open spec fn decimal_value(digits: Seq<char>) -> nat
    decreases digits.len(),
{
    if digits.len() == 0 {
        0
    } else {
        decimal_value(digits.drop_last()) * 10 + (digits.last() as nat - '0' as nat) as nat
    }
}

/// The digits of the patch index in a file name: those that follow the hash
/// identity and the 7 characters after it.
pub open spec fn index_digits(file_name: Seq<char>) -> Seq<char> {
    if file_name.len() >= HASH_LENGTH + MARK_LENGTH {
        let rest = file_name.skip(HASH_LENGTH + MARK_LENGTH);
        rest.take(leading_digits(rest) as int)
    } else {
        Seq::empty()
    }
}

/// The patch index of a file name.
pub open spec fn patch_index(file_name: Seq<char>) -> Result<u32, IndexError> {
    let digits = index_digits(file_name);
    if digits.len() == 0 {
        Err(IndexError::Empty)
    } else if decimal_value(digits) > u32::MAX {
        Err(IndexError::PosOverflow)
    } else {
        Ok(decimal_value(digits) as u32)
    }
}

/// The run of digits at the start of a text ends at the first character that
/// is no digit.
pub proof fn lemma_leading_digits(s: Seq<char>, n: int)
    requires
        0 <= n <= s.len(),
        forall|j: int| 0 <= j < n ==> is_digit(#[trigger] s[j]),
        n == s.len() || !is_digit(s[n]),
    ensures
        leading_digits(s) == n,
    decreases n,
{
    if n > 0 {
        let rest = s.drop_first();
        lemma_leading_digits(rest, n - 1);
    }
}

/// A string of digits writes a number at least as large as any of its
/// prefixes does.
pub proof fn lemma_decimal_value_grows(digits: Seq<char>, n: int)
    requires
        0 <= n <= digits.len(),
        forall|j: int| 0 <= j < digits.len() ==> is_digit(#[trigger] digits[j]),
    ensures
        decimal_value(digits.take(n)) <= decimal_value(digits),
    decreases digits.len(),
{
    if n == digits.len() {
        assert(digits.take(n) == digits);
    } else {
        assert(digits.drop_last().take(n) == digits.take(n));
        lemma_decimal_value_grows(digits.drop_last(), n);
    }
}

/// The hash identity of a patch file.
pub fn get_patch_name(file_name: &str) -> (r: Result<[char; 16], DeployError>)
    ensures
        match r {
            Ok(name) => patch_name(file_name@) == Some(name@),
            Err(e) => e == DeployError::NameExtractError && patch_name(file_name@) is None,
        },
{
    let text = chars_of(file_name);
    if text.len() < HASH_LENGTH {
        return Err(DeployError::NameExtractError);
    }
    let name: [char; 16] = [
        text[0],
        text[1],
        text[2],
        text[3],
        text[4],
        text[5],
        text[6],
        text[7],
        text[8],
        text[9],
        text[10],
        text[11],
        text[12],
        text[13],
        text[14],
        text[15],
    ];
    Ok(name)
}

/// The patch index of a patch file.
pub fn get_patch_index(file_name: &str) -> (r: Result<u32, DeployError>)
    ensures
        match r {
            Ok(index) => patch_index(file_name@) == Ok::<u32, IndexError>(index),
            Err(e) => patch_index(file_name@) is Err && e == DeployError::ParseIndexError(
                patch_index(file_name@)->Err_0,
            ),
        },
{
    let text = chars_of(file_name);
    let size = text.len();
    let start = HASH_LENGTH + MARK_LENGTH;
    if size < start {
        return Err(DeployError::ParseIndexError(IndexError::Empty));
    }
    let ghost rest = file_name@.skip(start as int);
    let mut end = start;
    while end < size && text[end] >= '0' && text[end] <= '9'
        invariant
            start <= end <= size == text@.len(),
            text@ == file_name@,
            rest == file_name@.skip(start as int),
            forall|j: int| 0 <= j < end - start ==> is_digit(#[trigger] rest[j]),
        decreases size - end,
    {
        end += 1;
    }
    proof {
        lemma_leading_digits(rest, end - start);
    }
    let ghost digits = rest.take(end - start);
    if end == start {
        return Err(DeployError::ParseIndexError(IndexError::Empty));
    }
    let mut value: u32 = 0;
    let mut at = start;
    while at < end
        invariant
            start <= at <= end <= size == text@.len(),
            text@ == file_name@,
            digits == file_name@.skip(start as int).take(end - start),
            forall|j: int| 0 <= j < digits.len() ==> is_digit(#[trigger] digits[j]),
            value == decimal_value(digits.take(at - start)),
            digits == index_digits(file_name@),
            digits.len() > 0,
        decreases end - at,
    {
        assert(is_digit(digits[at - start]));
        let digit: u32 = text[at] as u32 - '0' as u32;
        proof {
            let upto = digits.take(at - start + 1);
            assert(upto.drop_last() == digits.take(at - start));
            lemma_decimal_value_grows(digits, at - start + 1);
        }
        if value > (u32::MAX - digit) / 10 {
            return Err(DeployError::ParseIndexError(IndexError::PosOverflow));
        }
        value = value * 10 + digit;
        at += 1;
    }
    assert(digits.take(end - start) == digits);
    Ok(value)
}

/// A directory that contributes to a deployment: the directory of a mod, or
/// a directory under it.
#[derive(Debug, PartialEq, Eq)]
pub struct Contribution {
    root: String,
    relative: Option<String>,
}

/// Mathematical model of a [`Contribution`].
pub struct ContributionView {
    /// The directory of the mod.
    pub root: Seq<char>,
    /// The path under it, or `None` for the directory of the mod itself.
    pub relative: Option<Seq<char>>,
}

impl View for Contribution {
    type V = ContributionView;

    closed spec fn view(&self) -> ContributionView {
        ContributionView {
            root: self.root@,
            relative: optional_view(self.relative),
        }
    }
}

impl Contribution {
    pub fn new(root: String, relative: Option<String>) -> (r: Self)
        ensures
            r@ == (ContributionView { root: root@, relative: optional_view(relative) }),
    {
        Self { root, relative }
    }

    /// A copy of the contribution.
    pub fn duplicate(&self) -> (r: Self)
        ensures
            r@ == self@,
    {
        let relative = match &self.relative {
            Some(path) => Some(path.clone()),
            None => None,
        };
        Self { root: self.root.clone(), relative }
    }

    pub fn root(&self) -> (r: &str)
        ensures
            r@ == self@.root,
    {
        self.root.as_str()
    }

    pub fn relative(&self) -> (r: Option<&str>)
        ensures
            match r {
                Some(path) => self@.relative == Some(path@),
                None => self@.relative is None,
            },
    {
        match &self.relative {
            Some(path) => Some(path.as_str()),
            None => None,
        }
    }
}

/// The files of one patch of one hash identity, as far as a directory holds
/// them. Each file is given by its name in that directory.
#[derive(Debug, PartialEq, Eq)]
pub struct FileTriplet {
    directory: Contribution,
    index: u32,
    toc_file: Option<String>,
    steam_file: Option<String>,
    gpu_file: Option<String>,
}

/// Mathematical model of a [`FileTriplet`].
pub struct TripletView {
    pub directory: ContributionView,
    pub index: u32,
    /// The main file, `<hash>.patch_<index>`.
    pub toc_file: Option<Seq<char>>,
    /// The stream file, `<hash>.patch_<index>.stream`.
    pub steam_file: Option<Seq<char>>,
    /// The file of GPU resources, `<hash>.patch_<index>.gpu_resources`.
    pub gpu_file: Option<Seq<char>>,
}

impl View for FileTriplet {
    type V = TripletView;

    closed spec fn view(&self) -> TripletView {
        TripletView {
            directory: self.directory@,
            index: self.index,
            toc_file: optional_view(self.toc_file),
            steam_file: optional_view(self.steam_file),
            gpu_file: optional_view(self.gpu_file),
        }
    }
}

impl FileTriplet {
    pub fn directory(&self) -> (r: &Contribution)
        ensures
            r@ == self@.directory,
    {
        &self.directory
    }

    pub fn index(&self) -> (r: u32)
        ensures
            r == self@.index,
    {
        self.index
    }

    pub fn toc_file(&self) -> (r: Option<&str>)
        ensures
            match r {
                Some(name) => self@.toc_file == Some(name@),
                None => self@.toc_file is None,
            },
    {
        match &self.toc_file {
            Some(name) => Some(name.as_str()),
            None => None,
        }
    }

    pub fn steam_file(&self) -> (r: Option<&str>)
        ensures
            match r {
                Some(name) => self@.steam_file == Some(name@),
                None => self@.steam_file is None,
            },
    {
        match &self.steam_file {
            Some(name) => Some(name.as_str()),
            None => None,
        }
    }

    pub fn gpu_file(&self) -> (r: Option<&str>)
        ensures
            match r {
                Some(name) => self@.gpu_file == Some(name@),
                None => self@.gpu_file is None,
            },
    {
        match &self.gpu_file {
            Some(name) => Some(name.as_str()),
            None => None,
        }
    }
}

/// The triplets of one hash identity, in the order in which the resolver
/// met them.
#[derive(Debug, PartialEq, Eq)]
pub struct PatchGroup {
    name: [char; 16],
    triplets: Vec<FileTriplet>,
}

/// Mathematical model of a [`PatchGroup`].
pub struct GroupView {
    pub name: Seq<char>,
    pub triplets: Seq<TripletView>,
}

impl View for PatchGroup {
    type V = GroupView;

    closed spec fn view(&self) -> GroupView {
        GroupView { name: self.name@, triplets: views(self.triplets@) }
    }
}

impl PatchGroup {
    pub fn name(&self) -> (r: &[char; 16])
        ensures
            r@ == self@.name,
    {
        &self.name
    }

    pub fn triplets(&self) -> (r: &[FileTriplet])
        ensures
            views(r@) == self@.triplets,
    {
        self.triplets.as_slice()
    }
}

/// What a directory that contributes to a deployment holds: the names of
/// the files that stand directly in it.
#[derive(Debug, PartialEq, Eq)]
pub struct DirectoryScan {
    directory: Contribution,
    files: Vec<String>,
}

/// Mathematical model of a [`DirectoryScan`].
pub struct ScanView {
    pub directory: ContributionView,
    pub files: Seq<Seq<char>>,
}

impl View for DirectoryScan {
    type V = ScanView;

    closed spec fn view(&self) -> ScanView {
        ScanView { directory: self.directory@, files: views(self.files@) }
    }
}

impl DirectoryScan {
    pub fn new(directory: Contribution, files: Vec<String>) -> (r: Self)
        ensures
            r@ == (ScanView { directory: directory@, files: views(files@) }),
    {
        Self { directory, files }
    }

    pub fn directory(&self) -> (r: &Contribution)
        ensures
            r@ == self@.directory,
    {
        &self.directory
    }

    pub fn files(&self) -> (r: &[String])
        ensures
            views(r@) == self@.files,
    {
        self.files.as_slice()
    }
}

/// The files among `files` that are patch files: those whose name holds the
/// mark `.patch_`. Their order is kept.
pub open spec fn patch_files(files: Seq<Seq<char>>) -> Seq<Seq<char>> {
    containing(files, ".patch_"@)
}

/// Whether every one of the patch files has a hash identity.
pub open spec fn all_named(patches: Seq<Seq<char>>) -> bool {
    forall|i: int| 0 <= i < patches.len() ==> patch_name(#[trigger] patches[i]) is Some
}

/// The error of the first patch file, in order, that has no patch index.
pub open spec fn index_error(patches: Seq<Seq<char>>) -> Option<IndexError>
    decreases patches.len(),
{
    if patches.len() == 0 {
        None
    } else {
        match index_error(patches.drop_last()) {
            Some(e) => Some(e),
            None => match patch_index(patches.last()) {
                Err(e) => Some(e),
                Ok(_) => None,
            },
        }
    }
}

/// The hash identity and the patch index of each patch file.
pub open spec fn patch_keys(patches: Seq<Seq<char>>) -> Seq<(Seq<char>, u32)> {
    Seq::new(patches.len(), |i: int| (patch_name(patches[i])->0, patch_index(patches[i])->Ok_0))
}

/// The items of `s` in the order in which they first occur, each once.
pub open spec fn first_seen<T>(s: Seq<T>) -> Seq<T>
    decreases s.len(),
{
    if s.len() == 0 {
        Seq::empty()
    } else if s.drop_last().contains(s.last()) {
        first_seen(s.drop_last())
    } else {
        first_seen(s.drop_last()).push(s.last())
    }
}

/// The name of the patch file of a hash identity and a patch index, with
/// the ending of its role: none for the main file, `.stream` or
/// `.gpu_resources` for the two others.
pub open spec fn patch_file_name(hash: Seq<char>, index: u32, ending: Seq<char>) -> Seq<char> {
    hash + ".patch_"@ + decimal(index as nat) + ending
}

/// A name, if a file of that name is among `files`.
pub open spec fn slot(files: Seq<Seq<char>>, name: Seq<char>) -> Option<Seq<char>> {
    if files.contains(name) {
        Some(name)
    } else {
        None
    }
}

/// The triplet of a hash identity and a patch index in a directory: each of
/// the three files is there if the directory holds a file of its exact name.
pub open spec fn triplet_of(scan: ScanView, hash: Seq<char>, index: u32) -> TripletView {
    TripletView {
        directory: scan.directory,
        index,
        toc_file: slot(scan.files, patch_file_name(hash, index, Seq::empty())),
        steam_file: slot(scan.files, patch_file_name(hash, index, ".stream"@)),
        gpu_file: slot(scan.files, patch_file_name(hash, index, ".gpu_resources"@)),
    }
}

/// Adds a triplet to the group of its hash identity, which is the first
/// group of that name; where there is none, a new group is added at the end.
pub open spec fn add_triplet(groups: Seq<GroupView>, hash: Seq<char>, triplet: TripletView) -> Seq<
    GroupView,
>
    decreases groups.len(),
{
    if groups.len() == 0 {
        seq![GroupView { name: hash, triplets: seq![triplet] }]
    } else if groups[0].name == hash {
        groups.update(0, GroupView { name: hash, triplets: groups[0].triplets.push(triplet) })
    } else {
        seq![groups[0]] + add_triplet(groups.drop_first(), hash, triplet)
    }
}

/// Adds the triplet of each key, in order.
pub open spec fn add_keys(groups: Seq<GroupView>, scan: ScanView, keys: Seq<(Seq<char>, u32)>) -> Seq<
    GroupView,
>
    decreases keys.len(),
{
    if keys.len() == 0 {
        groups
    } else {
        add_triplet(
            add_keys(groups, scan, keys.drop_last()),
            keys.last().0,
            triplet_of(scan, keys.last().0, keys.last().1),
        )
    }
}

/// Adds what one directory contributes. Its patch files are those whose
/// name holds `.patch_`. If one of them is too short to have a hash
/// identity, or else if one of them has no patch index, the directory is
/// refused. Otherwise each pair of hash identity and patch index that occurs
/// among them gives one triplet, in the order in which the pairs first occur.
pub open spec fn add_directory(groups: Seq<GroupView>, scan: ScanView) -> Result<
    Seq<GroupView>,
    DeployError,
> {
    let patches = patch_files(scan.files);
    if !all_named(patches) {
        Err(DeployError::NameExtractError)
    } else {
        match index_error(patches) {
            Some(e) => Err(DeployError::ParseIndexError(e)),
            None => Ok(add_keys(groups, scan, first_seen(patch_keys(patches)))),
        }
    }
}

/// What the directories contribute, one after the other; the first
/// directory that is refused decides the error.
pub open spec fn resolve(scans: Seq<ScanView>) -> Result<Seq<GroupView>, DeployError>
    decreases scans.len(),
{
    if scans.len() == 0 {
        Ok(Seq::empty())
    } else {
        match resolve(scans.drop_last()) {
            Err(e) => Err(e),
            Ok(groups) => add_directory(groups, scans.last()),
        }
    }
}

/// An error among the first patch files is the error of them all.
pub proof fn lemma_index_error_early(patches: Seq<Seq<char>>, n: int)
    requires
        0 <= n <= patches.len(),
        index_error(patches.take(n)) is Some,
    ensures
        index_error(patches) == index_error(patches.take(n)),
    decreases patches.len(),
{
    if n == patches.len() {
        assert(patches.take(n) == patches);
    } else {
        assert(patches.drop_last().take(n) == patches.take(n));
        lemma_index_error_early(patches.drop_last(), n);
    }
}

fn same_chars(a: &Vec<char>, b: &Vec<char>) -> (r: bool)
    ensures
        r == (a@ == b@),
{
    if a.len() != b.len() {
        return false;
    }
    let size = a.len();
    let mut i: usize = 0;
    while i < size
        invariant
            i <= size == a@.len() == b@.len(),
            forall|j: int| 0 <= j < i ==> a@[j] == b@[j],
        decreases size - i,
    {
        if a[i] != b[i] {
            return false;
        }
        i += 1;
    }
    assert(a@ == b@);
    true
}

fn same_name(a: &[char; 16], b: &[char; 16]) -> (r: bool)
    ensures
        r == (a@ == b@),
{
    let mut i: usize = 0;
    while i < 16
        invariant
            i <= 16,
            forall|j: int| 0 <= j < i ==> a@[j] == b@[j],
        decreases 16 - i,
    {
        if a[i] != b[i] {
            return false;
        }
        i += 1;
    }
    assert(a@ == b@);
    true
}

fn read_names(patches: &Vec<String>) -> (r: Result<Vec<[char; 16]>, DeployError>)
    ensures
        match r {
            Ok(names) => {
                &&& all_named(views(patches@))
                &&& names@.len() == patches@.len()
                &&& forall|i: int|
                    0 <= i < names@.len() ==> patch_name(patches@[i]@) == Some((#[trigger] names@[i])@)
            },
            Err(e) => e == DeployError::NameExtractError && !all_named(views(patches@)),
        },
{
    let mut names: Vec<[char; 16]> = Vec::new();
    let mut i: usize = 0;
    while i < patches.len()
        invariant
            i <= patches@.len(),
            names@.len() == i,
            forall|j: int|
                0 <= j < i ==> patch_name(patches@[j]@) == Some((#[trigger] names@[j])@),
        decreases patches@.len() - i,
    {
        match get_patch_name(patches[i].as_str()) {
            Ok(name) => {
                names.push(name);
            },
            Err(e) => {
                assert(patch_name(views(patches@)[i as int]) is None);
                return Err(e);
            },
        }
        i += 1;
    }
    assert forall|j: int| 0 <= j < patches@.len() implies patch_name(
        #[trigger] views(patches@)[j],
    ) is Some by {
        assert(patch_name(patches@[j]@) == Some(names@[j]@));
    }
    Ok(names)
}

fn read_indexes(patches: &Vec<String>) -> (r: Result<Vec<u32>, DeployError>)
    ensures
        match r {
            Ok(indexes) => {
                &&& index_error(views(patches@)) is None
                &&& indexes@.len() == patches@.len()
                &&& forall|i: int|
                    0 <= i < indexes@.len() ==> patch_index(patches@[i]@) == Ok::<u32, IndexError>(
                        #[trigger] indexes@[i],
                    )
            },
            Err(e) => index_error(views(patches@)) is Some && e == DeployError::ParseIndexError(
                index_error(views(patches@))->0,
            ),
        },
{
    let ghost all = views(patches@);
    let mut indexes: Vec<u32> = Vec::new();
    let mut i: usize = 0;
    while i < patches.len()
        invariant
            i <= patches@.len(),
            all == views(patches@),
            indexes@.len() == i,
            index_error(all.take(i as int)) is None,
            forall|j: int|
                0 <= j < i ==> patch_index(patches@[j]@) == Ok::<u32, IndexError>(
                    #[trigger] indexes@[j],
                ),
        decreases patches@.len() - i,
    {
        proof {
            assert(all.take(i + 1).drop_last() == all.take(i as int));
        }
        match get_patch_index(patches[i].as_str()) {
            Ok(index) => {
                indexes.push(index);
            },
            Err(e) => {
                proof {
                    lemma_index_error_early(all, i + 1);
                }
                return Err(e);
            },
        }
        i += 1;
    }
    assert(all.take(i as int) == all);
    Ok(indexes)
}

fn make_name(hash: &[char; 16], index: u32, ending: &str) -> (r: Vec<char>)
    ensures
        r@ == patch_file_name(hash@, index, ending@),
{
    let mut name: Vec<char> = Vec::new();
    let mut i: usize = 0;
    while i < 16
        invariant
            i <= 16,
            name@ == hash@.take(i as int),
        decreases 16 - i,
    {
        name.push(hash[i]);
        i += 1;
    }
    let mut mark = chars_of(".patch_");
    name.append(&mut mark);
    let digits = decimal_text(index as u64);
    let mut number = chars_of(digits.as_str());
    name.append(&mut number);
    let mut tail = chars_of(ending);
    name.append(&mut tail);
    name
}

fn find_file(files: &Vec<String>, name: &Vec<char>) -> (r: Option<String>)
    ensures
        optional_view(r) == slot(views(files@), name@),
{
    let mut i: usize = 0;
    while i < files.len()
        invariant
            i <= files@.len(),
            forall|j: int| 0 <= j < i ==> files@[j]@ != name@,
        decreases files@.len() - i,
    {
        let text = chars_of(files[i].as_str());
        if same_chars(&text, name) {
            assert(views(files@)[i as int] == name@);
            return Some(files[i].clone());
        }
        i += 1;
    }
    None
}

fn make_triplet(scan: &DirectoryScan, hash: &[char; 16], index: u32) -> (r: FileTriplet)
    ensures
        r@ == triplet_of(scan@, hash@, index),
{
    let toc_name = make_name(hash, index, "");
    let steam_name = make_name(hash, index, ".stream");
    let gpu_name = make_name(hash, index, ".gpu_resources");
    proof {
        reveal_strlit("");
    }
    FileTriplet {
        directory: scan.directory.duplicate(),
        index,
        toc_file: find_file(&scan.files, &toc_name),
        steam_file: find_file(&scan.files, &steam_name),
        gpu_file: find_file(&scan.files, &gpu_name),
    }
}

/// Where the first group of a hash identity stands at `at`, the triplet is
/// added to that group.
pub proof fn lemma_add_triplet_at(
    groups: Seq<GroupView>,
    hash: Seq<char>,
    triplet: TripletView,
    at: int,
)
    requires
        0 <= at < groups.len(),
        groups[at].name == hash,
        forall|j: int| 0 <= j < at ==> groups[j].name != hash,
    ensures
        add_triplet(groups, hash, triplet) == groups.update(
            at,
            GroupView { name: hash, triplets: groups[at].triplets.push(triplet) },
        ),
    decreases at,
{
    if at > 0 {
        let rest = groups.drop_first();
        lemma_add_triplet_at(rest, hash, triplet, at - 1);
    }
}

/// Where no group has the hash identity, the triplet opens a new group at
/// the end.
pub proof fn lemma_add_triplet_new(groups: Seq<GroupView>, hash: Seq<char>, triplet: TripletView)
    requires
        forall|j: int| 0 <= j < groups.len() ==> groups[j].name != hash,
    ensures
        add_triplet(groups, hash, triplet) == groups.push(
            GroupView { name: hash, triplets: seq![triplet] },
        ),
    decreases groups.len(),
{
    if groups.len() > 0 {
        let rest = groups.drop_first();
        lemma_add_triplet_new(rest, hash, triplet);
    }
}

/// Whether the groups are those of a mapping from hash identities: every
/// name has the length of a hash identity, and no two groups share a name.
pub open spec fn keyed_by_hash(groups: Seq<GroupView>) -> bool {
    &&& forall|i: int| 0 <= i < groups.len() ==> (#[trigger] groups[i]).name.len() == HASH_LENGTH
    &&& forall|i: int, j: int|
        0 <= i < j < groups.len() ==> (#[trigger] groups[i]).name != (#[trigger] groups[j]).name
}

/// What adding a triplet does to the names of the groups: those that were
/// there stay in their places, and at most one is added at the end, which
/// is then the hash identity of the triplet and new among them.
pub proof fn lemma_add_triplet_names(groups: Seq<GroupView>, hash: Seq<char>, triplet: TripletView)
    ensures
        groups.len() <= add_triplet(groups, hash, triplet).len() <= groups.len() + 1,
        forall|i: int|
            0 <= i < groups.len() ==> (#[trigger] add_triplet(groups, hash, triplet)[i]).name
                == groups[i].name,
        add_triplet(groups, hash, triplet).len() == groups.len() + 1 ==> {
            &&& add_triplet(groups, hash, triplet).last().name == hash
            &&& forall|i: int| 0 <= i < groups.len() ==> (#[trigger] groups[i]).name != hash
        },
    decreases groups.len(),
{
    if groups.len() > 0 && groups[0].name != hash {
        let rest = groups.drop_first();
        lemma_add_triplet_names(rest, hash, triplet);
        let after = add_triplet(groups, hash, triplet);
        assert forall|i: int| 0 <= i < groups.len() implies (#[trigger] after[i]).name
            == groups[i].name by {
            if i > 0 {
                assert(after[i] == add_triplet(rest, hash, triplet)[i - 1]);
                assert(rest[i - 1] == groups[i]);
            }
        }
        if after.len() == groups.len() + 1 {
            assert(after.last() == add_triplet(rest, hash, triplet).last());
            assert forall|i: int| 0 <= i < groups.len() implies (#[trigger] groups[i]).name
                != hash by {
                if i > 0 {
                    assert(rest[i - 1] == groups[i]);
                }
            }
        }
    }
}

/// Adding the triplet of a hash identity keeps the groups keyed by hash.
pub proof fn lemma_add_triplet_keeps_keys(
    groups: Seq<GroupView>,
    hash: Seq<char>,
    triplet: TripletView,
)
    requires
        keyed_by_hash(groups),
        hash.len() == HASH_LENGTH,
    ensures
        keyed_by_hash(add_triplet(groups, hash, triplet)),
{
    lemma_add_triplet_names(groups, hash, triplet);
    let after = add_triplet(groups, hash, triplet);
    assert forall|i: int| 0 <= i < after.len() implies (#[trigger] after[i]).name.len()
        == HASH_LENGTH by {
        if i < groups.len() {
            assert(after[i].name == groups[i].name);
        }
    }
    assert forall|i: int, j: int| 0 <= i < j < after.len() implies (#[trigger] after[i]).name
        != (#[trigger] after[j]).name by {
        assert(after[i].name == groups[i].name);
        if j < groups.len() {
            assert(after[j].name == groups[j].name);
        }
    }
}

/// Adding the triplets of keys whose hash identities have the right length
/// keeps the groups keyed by hash.
pub proof fn lemma_add_keys_keeps_keys(
    groups: Seq<GroupView>,
    scan: ScanView,
    keys: Seq<(Seq<char>, u32)>,
)
    requires
        keyed_by_hash(groups),
        forall|i: int| 0 <= i < keys.len() ==> (#[trigger] keys[i]).0.len() == HASH_LENGTH,
    ensures
        keyed_by_hash(add_keys(groups, scan, keys)),
    decreases keys.len(),
{
    if keys.len() > 0 {
        lemma_add_keys_keeps_keys(groups, scan, keys.drop_last());
        lemma_add_triplet_keeps_keys(
            add_keys(groups, scan, keys.drop_last()),
            keys.last().0,
            triplet_of(scan, keys.last().0, keys.last().1),
        );
    }
}

/// Every item of what `first_seen` keeps is an item of what it was given.
pub proof fn lemma_first_seen_items<T>(s: Seq<T>, i: int)
    requires
        0 <= i < first_seen(s).len(),
    ensures
        s.contains(first_seen(s)[i]),
    decreases s.len(),
{
    if s.len() > 0 {
        let front = first_seen(s.drop_last());
        if i < front.len() {
            lemma_first_seen_items(s.drop_last(), i);
            let k = choose|k: int| 0 <= k < s.drop_last().len() && s.drop_last()[k] == front[i];
            assert(s[k] == front[i]);
        } else {
            assert(s[s.len() - 1] == s.last());
        }
    }
}

/// What the resolver hands out is keyed by hash: the name of every group is
/// a hash identity of 16 characters, and no two groups share their name.
pub proof fn lemma_resolve_is_keyed_by_hash(scans: Seq<ScanView>)
    ensures
        resolve(scans) matches Ok(groups) ==> keyed_by_hash(groups),
    decreases scans.len(),
{
    if scans.len() > 0 {
        lemma_resolve_is_keyed_by_hash(scans.drop_last());
        if let Ok(before) = resolve(scans.drop_last()) {
            let scan = scans.last();
            let patches = patch_files(scan.files);
            if all_named(patches) && index_error(patches) is None {
                let keys = first_seen(patch_keys(patches));
                assert forall|i: int| 0 <= i < keys.len() implies (#[trigger] keys[i]).0.len()
                    == HASH_LENGTH by {
                    lemma_first_seen_items(patch_keys(patches), i);
                    let k = choose|k: int|
                        0 <= k < patch_keys(patches).len() && patch_keys(patches)[k] == keys[i];
                    assert(patch_name(patches[k]) is Some);
                }
                lemma_add_keys_keeps_keys(before, scan, keys);
            }
        }
    }
}

fn push_triplet(groups: &mut Vec<PatchGroup>, hash: &[char; 16], triplet: FileTriplet)
    ensures
        views(final(groups)@) == add_triplet(views(old(groups)@), hash@, triplet@),
{
    let ghost before = views(groups@);
    let mut at: usize = 0;
    while at < groups.len()
        invariant
            at <= groups@.len(),
            groups@ == old(groups)@,
            before == views(groups@),
            forall|j: int| 0 <= j < at ==> groups@[j]@.name != hash@,
        decreases groups@.len() - at,
    {
        if same_name(&groups[at].name, hash) {
            let mut group = groups.remove(at);
            group.triplets.push(triplet);
            proof {
                assert(views(group.triplets@) == before[at as int].triplets.push(triplet@));
                lemma_add_triplet_at(before, hash@, triplet@, at as int);
            }
            groups.insert(at, group);
            return ;
        }
        at += 1;
    }
    let group = PatchGroup { name: *hash, triplets: vec![triplet] };
    proof {
        assert(views(group.triplets@) == seq![triplet@]);
        lemma_add_triplet_new(before, hash@, triplet@);
    }
    groups.push(group);
}

fn add_scan(groups: &mut Vec<PatchGroup>, scan: &DirectoryScan) -> (r: Result<(), DeployError>)
    ensures
        match r {
            Ok(_) => add_directory(views(old(groups)@), scan@) == Ok::<Seq<GroupView>, DeployError>(
                views(final(groups)@),
            ),
            Err(e) => final(groups)@ == old(groups)@ && add_directory(views(old(groups)@), scan@)
                == Err::<Seq<GroupView>, DeployError>(e),
        },
{
    let patches = select_containing(&scan.files, ".patch_");
    let names = match read_names(&patches) {
        Ok(names) => names,
        Err(e) => {
            return Err(e);
        },
    };
    let indexes = match read_indexes(&patches) {
        Ok(indexes) => indexes,
        Err(e) => {
            return Err(e);
        },
    };
    let ghost keys = patch_keys(views(patches@));
    let ghost before = views(groups@);
    let mut k: usize = 0;
    while k < names.len()
        invariant
            k <= names@.len() == indexes@.len() == keys.len(),
            forall|j: int|
                0 <= j < keys.len() ==> #[trigger] keys[j] == (names@[j]@, indexes@[j]),
            views(groups@) == add_keys(before, scan@, first_seen(keys.take(k as int))),
        decreases names@.len() - k,
    {
        let ghost upto = keys.take(k + 1);
        proof {
            assert(upto.drop_last() == keys.take(k as int));
        }
        let mut seen = false;
        let mut j: usize = 0;
        while j < k
            invariant
                j <= k < names@.len() == indexes@.len() == keys.len(),
                forall|i: int|
                    0 <= i < keys.len() ==> #[trigger] keys[i] == (names@[i]@, indexes@[i]),
                seen == exists|i: int| 0 <= i < j && keys[i] == keys[k as int],
            decreases k - j,
        {
            if same_name(&names[j], &names[k]) && indexes[j] == indexes[k] {
                assert(keys[j as int] == keys[k as int]);
                seen = true;
            }
            j += 1;
        }
        proof {
            if seen {
                let i = choose|i: int| 0 <= i < k && keys[i] == keys[k as int];
                assert(keys.take(k as int)[i] == keys[k as int]);
            }
        }
        if !seen {
            let triplet = make_triplet(scan, &names[k], indexes[k]);
            proof {
                let fresh = first_seen(upto);
                assert(fresh.drop_last() == first_seen(keys.take(k as int)));
            }
            push_triplet(groups, &names[k], triplet);
        }
        k += 1;
    }
    assert(keys.take(k as int) == keys);
    Ok(())
}

/// An error among the first directories is the error of them all.
pub proof fn lemma_resolve_fails_early(scans: Seq<ScanView>, n: int)
    requires
        0 <= n <= scans.len(),
        resolve(scans.take(n)) is Err,
    ensures
        resolve(scans) == resolve(scans.take(n)),
    decreases scans.len(),
{
    if n == scans.len() {
        assert(scans.take(n) == scans);
    } else {
        assert(scans.drop_last().take(n) == scans.take(n));
        lemma_resolve_fails_early(scans.drop_last(), n);
    }
}

/// Groups the patch files of the directories that contribute to a
/// deployment by hash identity.
pub fn resolve_scans(scans: &Vec<DirectoryScan>) -> (r: Result<Vec<PatchGroup>, DeployError>)
    ensures
        match r {
            Ok(groups) => resolve(views(scans@)) == Ok::<Seq<GroupView>, DeployError>(
                views(groups@),
            ) && keyed_by_hash(views(groups@)),
            Err(e) => resolve(views(scans@)) == Err::<Seq<GroupView>, DeployError>(e),
        },
{
    proof {
        lemma_resolve_is_keyed_by_hash(views(scans@));
    }
    let ghost all = views(scans@);
    let mut groups: Vec<PatchGroup> = Vec::new();
    let mut i: usize = 0;
    assert(views(groups@) == Seq::<GroupView>::empty());
    while i < scans.len()
        invariant
            i <= scans@.len(),
            all == views(scans@),
            resolve(all.take(i as int)) == Ok::<Seq<GroupView>, DeployError>(views(groups@)),
        decreases scans@.len() - i,
    {
        proof {
            assert(all.take(i + 1).drop_last() == all.take(i as int));
        }
        match add_scan(&mut groups, &scans[i]) {
            Ok(_) => {},
            Err(e) => {
                proof {
                    lemma_resolve_fails_early(all, i + 1);
                }
                return Err(e);
            },
        }
        i += 1;
    }
    assert(all.take(i as int) == all);
    Ok(groups)
}

/// A deployment under way: the directories that contribute to it, those of
/// them that were scanned already, and the groups of the patch files found
/// in these.
pub struct Deployment {
    plan: Vec<Contribution>,
    groups: Vec<PatchGroup>,
    scanned: usize,
    listings: Ghost<Seq<Seq<Seq<char>>>>,
}

/// Mathematical model of a [`Deployment`].
pub struct DeploymentView {
    /// The directories that contribute, in the order in which they are
    /// scanned.
    pub plan: Seq<ContributionView>,
    /// The names of the files found in the directories scanned so far.
    pub listings: Seq<Seq<Seq<char>>>,
    /// The groups of the patch files found so far.
    pub groups: Seq<GroupView>,
}

impl DeploymentView {
    /// The directory to scan next, if one is left.
    pub open spec fn pending(self) -> Option<ContributionView> {
        if self.listings.len() < self.plan.len() {
            Some(self.plan[self.listings.len() as int])
        } else {
            None
        }
    }

    /// The directories scanned so far, each with the files found in it.
    pub open spec fn scans(self) -> Seq<ScanView> {
        Seq::new(
            self.listings.len(),
            |i: int| ScanView { directory: self.plan[i], files: self.listings[i] },
        )
    }
}

impl View for Deployment {
    type V = DeploymentView;

    closed spec fn view(&self) -> DeploymentView {
        DeploymentView {
            plan: views(self.plan@),
            listings: self.listings@,
            groups: views(self.groups@),
        }
    }
}

impl Deployment {
    #[verifier::type_invariant]
    spec fn groups_are_resolved(self) -> bool {
        &&& self.scanned == self.listings@.len() <= self.plan@.len()
        &&& resolve(self@.scans()) == Ok::<Seq<GroupView>, DeployError>(views(self.groups@))
    }

    /// A deployment to which the given directories contribute, none of
    /// which is scanned yet.
    pub fn new(plan: Vec<Contribution>) -> (r: Self)
        ensures
            r@ == (DeploymentView {
                plan: views(plan@),
                listings: Seq::empty(),
                groups: Seq::empty(),
            }),
    {
        let groups: Vec<PatchGroup> = Vec::new();
        assert(views(groups@) == Seq::<GroupView>::empty());
        let r = Deployment { plan, groups, scanned: 0, listings: Ghost(Seq::empty()) };
        assert(r@.scans() == Seq::<ScanView>::empty());
        r
    }

    /// The directory whose files are asked for next, if one is left.
    pub fn pending(&self) -> (r: Option<&Contribution>)
        ensures
            match r {
                Some(directory) => self@.pending() == Some(directory@),
                None => self@.pending() is None,
            },
    {
        proof {
            use_type_invariant(self);
        }
        if self.scanned < self.plan.len() {
            Some(&self.plan[self.scanned])
        } else {
            None
        }
    }

    /// Takes the names of the files that stand in the pending directory and
    /// groups the patch files among them. A malformed patch file name ends
    /// the deployment with its error. Where no directory is pending, the
    /// names are not looked at.
    pub fn scanned(self, files: Vec<String>) -> (r: Result<Deployment, DeployError>)
        ensures
            match self@.pending() {
                None => r == Ok::<Deployment, DeployError>(self),
                Some(directory) => match add_directory(
                    self@.groups,
                    ScanView { directory, files: views(files@) },
                ) {
                    Ok(groups) => r matches Ok(next) && next@ == (DeploymentView {
                        plan: self@.plan,
                        listings: self@.listings.push(views(files@)),
                        groups,
                    }),
                    Err(e) => r == Err::<Deployment, DeployError>(e),
                },
            },
    {
        proof {
            use_type_invariant(&self);
        }
        if self.scanned >= self.plan.len() {
            return Ok(self);
        }
        let ghost before = self@;
        let Deployment { plan, mut groups, scanned, listings } = self;
        let scan = DirectoryScan::new(plan[scanned].duplicate(), files);
        match add_scan(&mut groups, &scan) {
            Ok(_) => {
                proof {
                    let after = DeploymentView {
                        plan: views(plan@),
                        listings: listings@.push(views(files@)),
                        groups: views(groups@),
                    };
                    assert(after.scans().drop_last() == before.scans());
                    assert(after.scans().last() == scan@);
                }
                Ok(
                    Deployment {
                        plan,
                        groups,
                        scanned: scanned + 1,
                        listings: Ghost(listings@.push(views(files@))),
                    },
                )
            },
            Err(e) => Err(e),
        }
    }

    /// The groups of the patch files found so far: what the resolver makes
    /// of the directories scanned so far, keyed by hash identity.
    pub fn groups(&self) -> (r: &[PatchGroup])
        ensures
            views(r@) == self@.groups,
            resolve(self@.scans()) == Ok::<Seq<GroupView>, DeployError>(self@.groups),
            keyed_by_hash(self@.groups),
    {
        proof {
            use_type_invariant(self);
            lemma_resolve_is_keyed_by_hash(self@.scans());
        }
        self.groups.as_slice()
    }

    /// Ends the deployment and hands out the groups.
    pub fn finish(self) -> (r: Vec<PatchGroup>)
        ensures
            views(r@) == self@.groups,
            resolve(self@.scans()) == Ok::<Seq<GroupView>, DeployError>(self@.groups),
            keyed_by_hash(self@.groups),
    {
        proof {
            use_type_invariant(&self);
            lemma_resolve_is_keyed_by_hash(self@.scans());
        }
        self.groups
    }
}

} // verus!
