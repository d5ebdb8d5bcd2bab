//! `TeamRegistry`: the named teams.

use vstd::prelude::*;

use super::team::Team;
use crate::named_list::NamedList;

verus! {

/// Why a registry operation was refused.
#[derive(Debug, Clone, PartialEq, Eq)]
pub enum TeamError {
    /// A team with this name already exists.
    AlreadyExists(String),
    /// No team has this name.
    NotFound(String),
}

impl TeamError {
    /// The human-readable message of the error.
    pub open spec fn text(self) -> Seq<char> {
        match self {
            TeamError::AlreadyExists(n) => "team '"@ + n@ + "' already exists"@,
            TeamError::NotFound(n) => "team '"@ + n@ + "' not found"@,
        }
    }

    /// The human-readable message of the error.
    pub fn message(&self) -> (r: String)
        ensures
            r@ == self.text(),
    {
        let mut s = String::from_str("team '");
        match self {
            TeamError::AlreadyExists(n) => {
                s.append(n.as_str());
                s.append("' already exists");
            },
            TeamError::NotFound(n) => {
                s.append(n.as_str());
                s.append("' not found");
            },
        }
        assert(s@ =~= self.text());
        s
    }
}

/// Registry of named teams.
///
/// The name of a removed team is retired: it cannot be used for a new team,
/// since callers may still hold on to the removed one.
pub struct TeamRegistry {
    teams: NamedList<Team>,
    retired: NamedList<bool>,
}

impl TeamRegistry {
    /// The teams, by name.
    pub closed spec fn spec_teams(&self) -> Map<Seq<char>, Team> {
        self.teams@
    }

    /// The names of removed teams, which cannot be used again.
    pub closed spec fn spec_retired(&self) -> Set<Seq<char>> {
        self.retired@.dom()
    }

    /// The team names in creation order.
    pub closed spec fn spec_team_names(&self) -> Seq<String> {
        self.teams.spec_names()
    }

    /// Every team is well formed.
    pub closed spec fn wf(&self) -> bool {
        &&& self.teams.wf()
        &&& self.retired.wf()
        &&& forall|n: Seq<char>| #[trigger] self.teams@.dom().contains(n) ==> self.teams@[n].wf()
    }

    /// Create an empty registry.
    pub fn new() -> (r: Self)
        ensures
            r.wf(),
            r.spec_teams() == Map::<Seq<char>, Team>::empty(),
            r.spec_retired() == Set::<Seq<char>>::empty(),
            r.spec_team_names().len() == 0,
    {
        TeamRegistry { teams: NamedList::new(), retired: NamedList::new() }
    }

    /// Create a new, empty named team. Refused if a team has that name or
    /// had it before it was removed.
    pub fn create(&mut self, name: String) -> (r: Result<(), TeamError>)
        requires
            old(self).wf(),
        ensures
            final(self).wf(),
            final(self).spec_retired() == old(self).spec_retired(),
            old(self).spec_teams().dom().contains(name@) || old(self).spec_retired().contains(name@)
                ==> r == Err::<(), TeamError>(TeamError::AlreadyExists(name)) && final(self).spec_teams()
                == old(self).spec_teams() && final(self).spec_team_names() == old(self).spec_team_names(),
            !old(self).spec_teams().dom().contains(name@) && !old(self).spec_retired().contains(name@)
                ==> {
                &&& r is Ok
                &&& final(self).spec_team_names() == old(self).spec_team_names().push(name)
                &&& final(self).spec_teams().dom() == old(self).spec_teams().dom().insert(name@)
                &&& forall|n: Seq<char>|
                    n != name@ && #[trigger] old(self).spec_teams().dom().contains(n) ==> final(self).spec_teams()[n] == old(self).spec_teams()[n]
                &&& final(self).spec_teams()[name@].spec_members().len() == 0
                &&& final(self).spec_teams()[name@].spec_board().spec_tasks().len() == 0
                &&& final(self).spec_teams()[name@].spec_board().spec_next_id() == 1
            },
    {
        if self.teams.contains(name.as_str()) || self.retired.contains(name.as_str()) {
            return Err(TeamError::AlreadyExists(name));
        }
        self.teams.insert(name, Team::new());
        Ok(())
    }

    /// Look up a team by name.
    pub fn get(&self, name: &str) -> (r: Option<&Team>)
        requires
            self.wf(),
        ensures
            r is Some <==> self.spec_teams().dom().contains(name@),
            r matches Some(t) ==> *t == self.spec_teams()[name@] && t.wf(),
    {
        self.teams.get(name)
    }

    /// Exchange the team stored under `name` with `team`. Returns `false`,
    /// changing nothing, when there is no such team.
    pub fn swap_team(&mut self, name: &str, team: &mut Team) -> (found: bool)
        requires
            old(self).wf(),
            old(team).wf(),
        ensures
            final(self).wf(),
            final(team).wf(),
            found == old(self).spec_teams().dom().contains(name@),
            found ==> *final(team) == old(self).spec_teams()[name@] && final(self).spec_teams()
                == old(self).spec_teams().insert(name@, *old(team)),
            !found ==> *final(team) == *old(team) && final(self).spec_teams() == old(self).spec_teams(),
            final(self).spec_team_names() == old(self).spec_team_names(),
            final(self).spec_retired() == old(self).spec_retired(),
    {
        match self.teams.find(name) {
            Some(i) => {
                proof {
                    self.teams.lemma_entry(i as int);
                }
                self.teams.swap_at(i, team);
                true
            },
            None => false,
        }
    }

    /// Remove a team by name, retiring the name. Refused if there is no
    /// such team.
    pub fn remove(&mut self, name: &str) -> (r: Result<(), TeamError>)
        requires
            old(self).wf(),
        ensures
            final(self).wf(),
            final(self).spec_teams() == old(self).spec_teams().remove(name@),
            r is Ok <==> old(self).spec_teams().dom().contains(name@),
            r is Ok ==> final(self).spec_retired() == old(self).spec_retired().insert(name@),
            r matches Err(e) ==> e matches TeamError::NotFound(n) && n@ == name@ && final(self).spec_retired()
                == old(self).spec_retired(),
            r is Err ==> final(self).spec_team_names() == old(self).spec_team_names(),
            r is Ok ==> exists|i: int|
                0 <= i < old(self).spec_team_names().len() && #[trigger] old(self).spec_team_names()[i]@ == name@
                    && final(self).spec_team_names() == old(self).spec_team_names().remove(i),
    {
        let ghost before = self.teams.spec_names();
        match self.teams.remove(name) {
            Some(_) => {
                proof {
                    let i = choose|i: int|
                        0 <= i < before.len() && #[trigger] before[i]@ == name@ && self.teams.spec_names()
                            == before.remove(i);
                    assert(old(self).spec_team_names()[i]@ == name@);
                }
                self.retired.insert(String::from_str(name), true);
                Ok(())
            },
            None => Err(TeamError::NotFound(String::from_str(name))),
        }
    }

    /// List all team names, in creation order.
    pub fn list(&self) -> (r: Vec<String>)
        requires
            self.wf(),
        ensures
            r@ == self.spec_team_names(),
            forall|n: Seq<char>|
                #![trigger self.spec_teams().dom().contains(n)]
                self.spec_teams().dom().contains(n) <==> exists|i: int| 0 <= i < r@.len() && #[trigger] r@[i]@ == n,
            forall|i: int, j: int| 0 <= i < j < r@.len() ==> #[trigger] r@[i]@ != #[trigger] r@[j]@,
    {
        let mut r: Vec<String> = Vec::new();
        let n = self.teams.len();
        let mut i: usize = 0;
        while i < n
            invariant
                self.wf(),
                n == self.spec_team_names().len(),
                i <= n,
                r@ == self.spec_team_names().take(i as int),
            decreases n - i,
        {
            let (name, _) = self.teams.entry(i);
            r.push(name.clone());
            assert(r@ =~= self.spec_team_names().take(i + 1));
            i += 1;
        }
        assert(r@ =~= self.spec_team_names());
        proof {
            self.teams.lemma_names_are_domain();
            self.teams.lemma_distinct_names();
        }
        r
    }
}

} // verus!
