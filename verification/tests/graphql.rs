use kodik::shiki::graphql::{
    exclude_ids, franchise_request, graphql_url, Anime, FetchAnimesVars, Related, Relation,
    RelationAnime, RelationKind, ANIMES_BY_FRANCHISE_QUERY, LIMIT,
};
use kodik::shiki::shared::{AnimeKind, AnimeStatus};

fn anime(id: usize, related: Vec<(RelationKind, Option<usize>)>) -> Anime {
    Anime {
        id,
        name: format!("anime {id}"),
        status: AnimeStatus::Released,
        kind: AnimeKind::Tv,
        episodes: 12,
        episodes_aired: 12,
        related: related
            .into_iter()
            .map(|(relation_kind, target)| Relation {
                relation_kind,
                anime: target.map(|id| RelationAnime { id }),
            })
            .collect(),
        user_rate: None,
    }
}

fn ids(related: &Related) -> Vec<usize> {
    related.animes.iter().map(|a| a.id).collect()
}

#[test]
fn sort_without_relations_reverses() {
    let mut related = Related {
        animes: vec![anime(1, vec![]), anime(2, vec![]), anime(3, vec![])],
    };
    related.sort_by_chrono();
    assert_eq!(ids(&related), vec![3, 2, 1]);
}

#[test]
fn sort_ignores_relations_outside_the_list() {
    let mut related = Related {
        animes: vec![
            anime(1, vec![(RelationKind::Prequel, Some(99))]),
            anime(2, vec![(RelationKind::Sequel, None)]),
            anime(3, vec![(RelationKind::SideStory, Some(1))]),
        ],
    };
    related.sort_by_chrono();
    assert_eq!(ids(&related), vec![3, 2, 1]);
}

#[test]
fn sort_pulls_prequel_forward() {
    // Reversed: [2, 1]; 2 has prequel 1 after it, so 1 is pulled in front.
    let mut related = Related {
        animes: vec![anime(1, vec![]), anime(2, vec![(RelationKind::Prequel, Some(1))])],
    };
    related.sort_by_chrono();
    assert_eq!(ids(&related), vec![1, 2]);
}

#[test]
fn sort_pushes_title_before_its_sequel() {
    // Reversed: [3, 2, 1]; no prequels; 1 has sequel 3 at position 0, so 1
    // moves to position 0.
    let mut related = Related {
        animes: vec![
            anime(1, vec![(RelationKind::Sequel, Some(3))]),
            anime(2, vec![]),
            anime(3, vec![]),
        ],
    };
    related.sort_by_chrono();
    assert_eq!(ids(&related), vec![1, 3, 2]);
}

#[test]
fn sort_keeps_every_title() {
    let mut related = Related {
        animes: vec![
            anime(1, vec![(RelationKind::Sequel, Some(2)), (RelationKind::ParentStory, Some(4))]),
            anime(2, vec![(RelationKind::Prequel, Some(1))]),
            anime(3, vec![(RelationKind::Orig, Some(2)), (RelationKind::Sequel, Some(1))]),
            anime(4, vec![(RelationKind::FullStory, Some(3))]),
        ],
    };
    related.sort_by_chrono();
    let mut sorted = ids(&related);
    sorted.sort();
    assert_eq!(sorted, vec![1, 2, 3, 4]);
}

#[test]
fn append_page_asks_for_more_only_after_a_full_page() {
    let mut related = Related::default();
    let full: Vec<Anime> = (0..LIMIT).map(|i| anime(i, vec![])).collect();
    assert!(related.append_page(full));
    assert!(!related.append_page(vec![anime(100, vec![])]));
    assert_eq!(related.animes.len(), LIMIT + 1);
    assert_eq!(related.animes[LIMIT].id, 100);
    assert!(!related.append_page(vec![]));
}

#[test]
fn exclude_ids_are_comma_separated() {
    assert_eq!(exclude_ids(&[]), "");
    assert_eq!(exclude_ids(&[7]), "7");
    assert_eq!(exclude_ids(&[1, 20, 300, 0]), "1,20,300,0");
    assert_eq!(exclude_ids(&[usize::MAX]), usize::MAX.to_string());
}

#[test]
fn franchise_request_starts_at_page_one() {
    let ex = exclude_ids(&[5, 6]);
    let req = franchise_request("berserk", &ex);
    assert_eq!(req.query, ANIMES_BY_FRANCHISE_QUERY);
    assert_eq!(req.variables.franchise, "berserk");
    assert_eq!(req.variables.page, 1);
    assert_eq!(req.variables.limit, 50);
    assert_eq!(req.variables.exclude_ids, "5,6");
    let vars = FetchAnimesVars::new("x", "");
    assert_eq!(vars.limit, LIMIT);
    assert_eq!(graphql_url("shikimori.io"), "https://shikimori.io/api/graphql");
}

#[test]
fn advance_page_counts_up() {
    let mut req = franchise_request("berserk", "");
    assert!(req.advance_page());
    assert_eq!(req.variables.page, 2);
    req.variables.page = usize::MAX;
    assert!(!req.advance_page());
    assert_eq!(req.variables.page, usize::MAX);
    assert_eq!(req.variables.franchise, "berserk");
}

fn chain_title(id: usize, n: usize, with_sequels: bool) -> Anime {
    let mut related = vec![];
    if id > 1 {
        related.push((RelationKind::Prequel, Some(id - 1)));
    }
    if with_sequels && id < n {
        related.push((RelationKind::Sequel, Some(id + 1)));
    }
    anime(id, related)
}

fn permutations(v: Vec<usize>) -> Vec<Vec<usize>> {
    if v.len() <= 1 {
        return vec![v];
    }
    let mut out = vec![];
    for i in 0..v.len() {
        let mut rest = v.clone();
        let x = rest.remove(i);
        for mut p in permutations(rest) {
            p.insert(0, x);
            out.push(p);
        }
    }
    out
}

#[test]
fn sort_puts_a_prequel_chain_oldest_first() {
    for n in 1..=5 {
        for with_sequels in [false, true] {
            for order in permutations((1..=n).collect()) {
                let mut related = Related {
                    animes: order.iter().map(|&id| chain_title(id, n, with_sequels)).collect(),
                };
                related.sort_by_chrono();
                assert_eq!(ids(&related), (1..=n).collect::<Vec<_>>(), "from {order:?}");
            }
        }
    }
}
