//! Team registry: a process-wide, read-mostly mapping from team identifier
//! to team descriptor. Entities share a team by equality of `id`.

use vstd::prelude::*;

verus! {

/// A color in milli-intensity per channel (`0 ..= 1000`).
#[derive(Clone, Copy, PartialEq, Eq, Structural, Debug)]
pub struct Color {
    pub r: u32,
    pub g: u32,
    pub b: u32,
}

/// Team descriptor. Two entities are allies exactly when their teams'
/// `id` strings are equal.
pub struct Team {
    pub id: String,
    pub color: Color,
}

impl Clone for Team {
    fn clone(&self) -> (r: Team)
        ensures
            r.id == self.id,
            r.color == self.color,
    {
        Team { id: self.id.clone(), color: self.color }
    }
}

/// The first team in `s` whose id reads `id`, if any.
pub open spec fn spec_team_lookup(s: Seq<Team>, id: Seq<char>) -> Option<Team>
    decreases s.len(),
{
    if s.len() == 0 {
        None
    } else if s[0].id@ == id {
        Some(s[0])
    } else {
        spec_team_lookup(s.drop_first(), id)
    }
}

/// Registry of all teams, looked up by id.
pub struct Teams {
    pub teams: Vec<Team>,
}

impl Teams {
    /// No two registered teams share an id.
    pub open spec fn wf(self) -> bool {
        forall|i: int, j: int|
            0 <= i < j < self.teams@.len() ==> self.teams@[i].id@ != self.teams@[j].id@
    }

    pub open spec fn spec_get(self, id: Seq<char>) -> Option<Team> {
        spec_team_lookup(self.teams@, id)
    }

    /// The fixed roster the game starts from: three teams, blue `a`,
    /// red `b` and yellow `c`.
    pub fn new() -> (r: Teams)
        ensures
            r.wf(),
            r.teams@.len() == 3,
            r.teams@[0].id@ == "a"@ && r.teams@[0].color == (Color { r: 300, g: 300, b: 800 }),
            r.teams@[1].id@ == "b"@ && r.teams@[1].color == (Color { r: 800, g: 300, b: 300 }),
            r.teams@[2].id@ == "c"@ && r.teams@[2].color == (Color { r: 800, g: 800, b: 300 }),
            r.spec_get("a"@) == Some(r.teams@[0]),
            r.spec_get("b"@) == Some(r.teams@[1]),
            r.spec_get("c"@) == Some(r.teams@[2]),
    {
        let mut roster: Vec<Team> = Vec::new();
        roster.push(Team { id: "a".to_owned(), color: Color { r: 300, g: 300, b: 800 } });
        roster.push(Team { id: "b".to_owned(), color: Color { r: 800, g: 300, b: 300 } });
        roster.push(Team { id: "c".to_owned(), color: Color { r: 800, g: 800, b: 300 } });
        let teams = Teams { teams: roster };
        proof {
            reveal_strlit("a");
            reveal_strlit("b");
            reveal_strlit("c");
            let s = teams.teams@;
            assert(s[0].id@ == "a"@);
            assert(s[1].id@ == "b"@);
            assert(s[2].id@ == "c"@);
            assert("a"@[0] == 'a' && "b"@[0] == 'b' && "c"@[0] == 'c');
            assert("a"@ != "b"@ && "a"@ != "c"@ && "b"@ != "c"@);
            assert(s.drop_first() =~= s.skip(1));
            assert(s.skip(1).drop_first() =~= s.skip(2));
            assert(s.skip(1)[0] == s[1]);
            assert(s.skip(2)[0] == s[2]);
            assert(spec_team_lookup(s, "a"@) == Some(s[0]));
            assert(spec_team_lookup(s, "b"@) == spec_team_lookup(s.skip(1), "b"@));
            assert(spec_team_lookup(s.skip(1), "b"@) == Some(s[1]));
            assert(spec_team_lookup(s, "c"@) == spec_team_lookup(s.skip(1), "c"@));
            assert(spec_team_lookup(s.skip(1), "c"@) == spec_team_lookup(s.skip(2), "c"@));
            assert(spec_team_lookup(s.skip(2), "c"@) == Some(s[2]));
        }
        teams
    }

    /// Look a team up by id: returns the registered team with that id,
    /// `None` when no team carries it.
    pub fn get(&self, id: String) -> (r: Option<&Team>)
        ensures
            match r {
                Some(t) => self.spec_get(id@) == Some(*t),
                None => self.spec_get(id@) is None,
            },
    {
        let n = self.teams.len();
        let mut i: usize = 0;
        proof {
            assert(self.teams@.skip(0) =~= self.teams@);
        }
        while i < n
            invariant
                n == self.teams@.len(),
                0 <= i <= n,
                spec_team_lookup(self.teams@.skip(i as int), id@) == self.spec_get(id@),
                forall|k: int| 0 <= k < i ==> self.teams@[k].id@ != id@,
            decreases n - i,
        {
            proof {
                assert(self.teams@.skip(i as int)[0] == self.teams@[i as int]);
                assert(self.teams@.skip(i as int).drop_first() =~= self.teams@.skip(i + 1));
            }
            if self.teams[i].id.eq(&id) {
                return Some(&self.teams[i]);
            }
            i = i + 1;
        }
        proof {
            assert(self.teams@.skip(n as int) =~= Seq::<Team>::empty());
        }
        None
    }

    /// Look a team up by id and hand back a copy of it. The team must be
    /// registered; `get` reports absence instead.
    pub fn get_expect(&self, id: String) -> (r: Team)
        requires
            self.spec_get(id@) is Some,
        ensures
            r.id@ == self.spec_get(id@).unwrap().id@,
            r.color == self.spec_get(id@).unwrap().color,
    {
        let found = self.get(id);
        match found {
            Some(t) => t.clone(),
            None => {
                proof {
                    assert(false);
                }
                Team { id: String::new(), color: Color { r: 0, g: 0, b: 0 } }
            },
        }
    }

    /// Register a team: afterwards its id looks up exactly this team,
    /// and every other id looks up what it did before. A team already
    /// registered under the id is overwritten.
    pub fn add(&mut self, team: Team)
        requires
            old(self).wf(),
        ensures
            final(self).wf(),
            final(self).spec_get(team.id@) == Some(team),
            forall|id: Seq<char>|
                id != team.id@ ==> final(self).spec_get(id) == old(self).spec_get(id),
    {
        let ghost prev = self.teams@;
        let ghost tg = team;
        let n = self.teams.len();
        let mut i: usize = 0;
        while i < n
            invariant
                prev == old(self).teams@,
                old(self).wf(),
                self.teams@ == prev,
                n == prev.len(),
                0 <= i <= n,
                forall|k: int| 0 <= k < i ==> prev[k].id@ != tg.id@,
                team == tg,
            decreases n - i,
        {
            if self.teams[i].id.eq(&team.id) {
                self.teams[i] = team;
                proof {
                    assert(self.teams@ =~= prev.update(i as int, tg));
                    lemma_team_lookup_update(prev, i as int, tg, tg.id@);
                    assert forall|id: Seq<char>| id != tg.id@ implies self.spec_get(id)
                        == spec_team_lookup(prev, id) by {
                        lemma_team_lookup_update(prev, i as int, tg, id);
                    }
                    assert forall|a: int, b: int|
                        0 <= a < b < self.teams@.len() implies self.teams@[a].id@
                        != self.teams@[b].id@ by {
                        assert(self.teams@[a].id@ == prev[a].id@);
                        assert(self.teams@[b].id@ == prev[b].id@);
                    }
                }
                return;
            }
            i = i + 1;
        }
        self.teams.push(team);
        proof {
            lemma_team_lookup_none(prev, tg.id@);
            lemma_team_lookup_push(prev, tg, tg.id@);
            assert forall|id: Seq<char>| id != tg.id@ implies self.spec_get(id)
                == spec_team_lookup(prev, id) by {
                lemma_team_lookup_push(prev, tg, id);
            }
            assert forall|a: int, b: int|
                0 <= a < b < self.teams@.len() implies self.teams@[a].id@
                != self.teams@[b].id@ by {
                if b < prev.len() {
                    assert(self.teams@[a] == prev[a]);
                    assert(self.teams@[b] == prev[b]);
                } else {
                    assert(self.teams@[a] == prev[a]);
                    assert(self.teams@[b] == tg);
                }
            }
        }
    }
}

/// Looking an id up in a roster where nothing carries it finds nothing.
pub proof fn lemma_team_lookup_none(s: Seq<Team>, id: Seq<char>)
    requires
        forall|k: int| 0 <= k < s.len() ==> s[k].id@ != id,
    ensures
        spec_team_lookup(s, id) is None,
    decreases s.len(),
{
    if s.len() > 0 {
        assert forall|k: int| 0 <= k < s.drop_first().len() implies s.drop_first()[k].id@
            != id by {
            assert(s.drop_first()[k] == s[k + 1]);
        }
        lemma_team_lookup_none(s.drop_first(), id);
    }
}

/// Appending a team leaves every already-resolvable lookup alone and
/// makes its own id resolvable.
pub proof fn lemma_team_lookup_push(s: Seq<Team>, t: Team, id: Seq<char>)
    ensures
        spec_team_lookup(s.push(t), id) == (if spec_team_lookup(s, id) is Some {
            spec_team_lookup(s, id)
        } else if t.id@ == id {
            Some(t)
        } else {
            None::<Team>
        }),
    decreases s.len(),
{
    if s.len() == 0 {
        assert(s.push(t)[0] == t);
        assert(s.push(t).drop_first() =~= Seq::<Team>::empty());
    } else {
        assert(s.push(t)[0] == s[0]);
        assert(s.push(t).drop_first() =~= s.drop_first().push(t));
        lemma_team_lookup_push(s.drop_first(), t, id);
    }
}

/// Replacing the first team that carries `t`'s id makes that id look up
/// `t` and leaves every other lookup alone.
pub proof fn lemma_team_lookup_update(s: Seq<Team>, i: int, t: Team, id: Seq<char>)
    requires
        0 <= i < s.len(),
        s[i].id@ == t.id@,
        forall|k: int| 0 <= k < i ==> s[k].id@ != t.id@,
    ensures
        spec_team_lookup(s.update(i, t), t.id@) == Some(t),
        id != t.id@ ==> spec_team_lookup(s.update(i, t), id) == spec_team_lookup(s, id),
    decreases s.len(),
{
    let s2 = s.update(i, t);
    if i == 0 {
        assert(s2[0] == t);
        assert(s2.drop_first() =~= s.drop_first());
    } else {
        assert(s2[0] == s[0]);
        assert(s2.drop_first() =~= s.drop_first().update(i - 1, t));
        assert(s.drop_first()[i - 1] == s[i]);
        assert forall|k: int| 0 <= k < i - 1 implies s.drop_first()[k].id@ != t.id@ by {
            assert(s.drop_first()[k] == s[k + 1]);
        }
        lemma_team_lookup_update(s.drop_first(), i - 1, t, id);
    }
}

} // verus!
