use vstd::prelude::*;

verus! {

/// A named, ordered container of scripts.
#[derive(Debug)]
pub struct Folder {
    pub id: i32,
    pub name: String,
    pub ordering: i32,
}

/// A stored shell command with a display name.
#[derive(Debug)]
pub struct Script {
    pub id: i32,
    pub name: String,
    pub command: String,
}

/// The singleton record that remembers the last selected folder.
#[derive(Clone, Copy, PartialEq, Eq, Structural, Debug)]
pub struct AppStateData {
    pub id: i32,
    pub last_opened_folder_id: Option<i32>,
}

pub struct FolderView {
    pub id: i32,
    pub name: Seq<char>,
    pub ordering: i32,
}

pub struct ScriptView {
    pub id: i32,
    pub name: Seq<char>,
    pub command: Seq<char>,
}

impl View for Folder {
    type V = FolderView;

    open spec fn view(&self) -> FolderView {
        FolderView { id: self.id, name: self.name@, ordering: self.ordering }
    }
}

impl View for Script {
    type V = ScriptView;

    open spec fn view(&self) -> ScriptView {
        ScriptView { id: self.id, name: self.name@, command: self.command@ }
    }
}

pub open spec fn folders_view(s: Seq<Folder>) -> Seq<FolderView> {
    s.map_values(|f: Folder| f@)
}

pub open spec fn scripts_view(s: Seq<Script>) -> Seq<ScriptView> {
    s.map_values(|c: Script| c@)
}

/// Each folder's ordering is its position: the orderings are `0..n-1` in order.
pub open spec fn ordering_matches_position(s: Seq<FolderView>) -> bool {
    forall|i: int| 0 <= i < s.len() ==> #[trigger] s[i].ordering == i
}

/// The set of orderings held by the folders of `s`.
pub open spec fn orderings_of(s: Seq<FolderView>) -> Set<int> {
    Set::new(|o: int| exists|i: int| 0 <= i < s.len() && s[i].ordering == o)
}

/// The orderings of `s` are exactly `{0, 1, ..., n-1}`, with no two folders sharing one.
pub open spec fn dense_orderings(s: Seq<FolderView>) -> bool {
    &&& orderings_of(s) == Set::new(|o: int| 0 <= o < s.len())
    &&& forall|i: int, j: int|
        0 <= i < s.len() && 0 <= j < s.len() && i != j ==> s[i].ordering != s[j].ordering
}

/// `s` with every folder's ordering set to its position.
pub open spec fn renumbered(s: Seq<FolderView>) -> Seq<FolderView> {
    Seq::new(s.len(), |i: int| FolderView { ordering: i as i32, ..s[i] })
}

/// A folder list whose orderings follow its positions has dense orderings.
pub proof fn lemma_position_orderings_dense(s: Seq<FolderView>)
    requires
        ordering_matches_position(s),
    ensures
        dense_orderings(s),
{
    assert forall|o: int| #[trigger] orderings_of(s).contains(o) <==> 0 <= o < s.len() by {
        if 0 <= o < s.len() {
            assert(s[o].ordering == o);
        }
    }
    assert(orderings_of(s) =~= Set::new(|o: int| 0 <= o < s.len()));
}

/// Renumbering by position yields orderings that follow the positions.
pub proof fn lemma_renumbered_matches_position(s: Seq<FolderView>)
    requires
        s.len() <= i32::MAX,
    ensures
        ordering_matches_position(renumbered(s)),
        renumbered(s).len() == s.len(),
{
}

impl Folder {
    pub fn duplicate(&self) -> (r: Folder)
        ensures
            r@ == self@,
    {
        Folder { id: self.id, name: self.name.clone(), ordering: self.ordering }
    }
}

impl Script {
    pub fn duplicate(&self) -> (r: Script)
        ensures
            r@ == self@,
    {
        Script { id: self.id, name: self.name.clone(), command: self.command.clone() }
    }
}

} // verus!
