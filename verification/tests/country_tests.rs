use ts_engine::country::{
    adjacency_list, countries, edges, neighbors_of, standard_start, CName, Country, Region, Side,
    NUM_COUNTRIES,
};

#[test]
fn check_countries() {
    let countries = countries();
    assert!(countries.into_iter().all(|c| c.stability > 0));
}

#[test]
fn check_east_west_europe() {
    let west = &[
        CName::Canada,
        CName::UK,
        CName::SpainPortugal,
        CName::France,
        CName::Benelux,
        CName::WGermany,
        CName::Italy,
        CName::Austria,
        CName::Greece,
        CName::Turkey,
        CName::Norway,
        CName::Denmark,
        CName::Sweden,
        CName::Finland,
    ];
    for w in west.iter().map(|x| x.index()) {
        assert!(Region::WesternEurope.has_country(w));
    }
    let east = &[
        CName::Finland,
        CName::EGermany,
        CName::Poland,
        CName::Czechoslovakia,
        CName::Austria,
        CName::Hungary,
        CName::Romania,
        CName::Yugoslavia,
        CName::Bulgaria,
    ];
    for e in east.iter().map(|x| x.index()) {
        assert!(Region::EasternEurope.has_country(e));
    }
}

#[test]
fn check_degrees() {
    let e = edges();
    let len = NUM_COUNTRIES;
    let mut edge_list = vec![Vec::new(); len];
    for (v1, v2) in e {
        edge_list[v1.index()].push(v2);
        edge_list[v2.index()].push(v1);
    }
    let correct = [
        (CName::Canada, 2),
        (CName::UK, 4),
        (CName::Norway, 2),
        (CName::Sweden, 3),
        (CName::Finland, 2),
        (CName::Denmark, 2),
        (CName::Benelux, 2),
        (CName::France, 5),
        (CName::SpainPortugal, 3),
        (CName::Italy, 5),
        (CName::WGermany, 5),
        (CName::EGermany, 4),
        (CName::Austria, 4),
        (CName::Poland, 3),
        (CName::Czechoslovakia, 3),
        (CName::Hungary, 4),
        (CName::Romania, 4),
        (CName::Yugoslavia, 4),
        (CName::Greece, 4),
        (CName::Bulgaria, 2),
        (CName::Turkey, 4),
        (CName::Syria, 3),
        (CName::Lebanon, 3),
        (CName::Israel, 4),
        (CName::Egypt, 3),
        (CName::Libya, 2),
        (CName::Jordan, 4),
        (CName::Iraq, 4),
        (CName::SaudiaArabia, 3),
        (CName::GulfStates, 2),
        (CName::Iran, 3),
        (CName::Afghanistan, 3),
        (CName::Pakistan, 3),
        (CName::India, 2),
        (CName::Burma, 2),
        (CName::LaosCambodia, 3),
        (CName::Vietnam, 2),
        (CName::Thailand, 3),
        (CName::Malaysia, 3),
        (CName::Australia, 1),
        (CName::Indonesia, 2),
        (CName::Philippines, 2),
        (CName::Japan, 4),
        (CName::Taiwan, 2),
        (CName::SKorea, 3),
        (CName::NKorea, 2),
        (CName::Tunisia, 2),
        (CName::Algeria, 4),
        (CName::Morocco, 3),
        (CName::WestAfricanStates, 2),
        (CName::IvoryCoast, 2),
        (CName::SaharanStates, 2),
        (CName::Nigeria, 3),
        (CName::Cameroon, 2),
        (CName::Zaire, 3),
        (CName::Angola, 3),
        (CName::SouthAfrica, 2),
        (CName::Botswana, 3),
        (CName::Zimbabwe, 3),
        (CName::SEAfricanStates, 2),
        (CName::Kenya, 2),
        (CName::Somalia, 2),
        (CName::Ethiopia, 2),
        (CName::Sudan, 2),
        (CName::Mexico, 2),
        (CName::Guatemala, 3),
        (CName::ElSalvador, 2),
        (CName::Honduras, 4),
        (CName::CostaRica, 3),
        (CName::Panama, 2),
        (CName::Nicaragua, 3),
        (CName::Cuba, 3),
        (CName::Haiti, 2),
        (CName::DominicanRep, 1),
        (CName::Colombia, 3),
        (CName::Venezuela, 2),
        (CName::Brazil, 2),
        (CName::Uruguay, 3),
        (CName::Paraguay, 3),
        (CName::Bolivia, 2),
        (CName::Argentina, 3),
        (CName::Chile, 2),
        (CName::Peru, 3),
        (CName::Ecuador, 2),
        (CName::US, 4),
        (CName::USSR, 5),
    ];
    // Every country is in the list
    assert_eq!(len, correct.len());
    let s: usize = correct.iter().map(|(x, _y)| x.index()).sum();
    assert_eq!(s, len * (len - 1) / 2);
    // The degree of every node
    assert!(correct.iter().all(|(x, y)| edge_list[x.index()].len() == *y));
}

#[test]
fn adjacency_is_symmetric() {
    let adj = adjacency_list();
    for v in 0..NUM_COUNTRIES {
        for &x in adj[v].iter() {
            assert!(adj[x].contains(&v));
        }
        assert_eq!(neighbors_of(v), adj[v]);
    }
}

#[test]
fn controller_thresholds() {
    let c = Country { stability: 3, us: 4, ussr: 1, bg: true };
    assert_eq!(c.controller(), Side::US);
    let c = Country { stability: 3, us: 3, ussr: 1, bg: true };
    assert_eq!(c.controller(), Side::Neutral);
    let c = Country { stability: 2, us: 0, ussr: 2, bg: false };
    assert_eq!(c.controller(), Side::USSR);
    assert_eq!(c.greater_influence(), Side::USSR);
    assert!(c.has_influence(Side::USSR));
    assert!(!c.has_influence(Side::US));
}

#[test]
fn standard_start_influence() {
    let s = standard_start();
    assert_eq!(s.len(), NUM_COUNTRIES);
    assert_eq!(s[CName::Canada.index()].us, 2);
    assert_eq!(s[CName::UK.index()].us, 5);
    assert_eq!(s[CName::EGermany.index()].ussr, 3);
    assert_eq!(s[CName::Finland.index()].ussr, 1);
    assert_eq!(s[CName::Syria.index()].ussr, 1);
    assert_eq!(s[CName::NKorea.index()].ussr, 3);
    assert_eq!(s[CName::Japan.index()].us, 1);
    assert_eq!(s[CName::France.index()].us, 0);
}

#[test]
fn cname_round_trip() {
    for i in 0..NUM_COUNTRIES {
        assert_eq!(CName::from_index(i).index(), i);
    }
    assert_eq!(CName::total(), NUM_COUNTRIES);
}

#[test]
fn side_from_number() {
    assert_eq!(Side::from(0usize), Side::US);
    assert_eq!(Side::from(1usize), Side::USSR);
    assert_eq!(Side::from(2usize), Side::Neutral);
    assert_eq!(Side::from(7usize), Side::Neutral);
}

#[test]
fn opposite_twice_is_identity() {
    for side in [Side::US, Side::USSR] {
        assert_ne!(side.opposite(), side);
        assert_eq!(side.opposite().opposite(), side);
    }
    assert_eq!(Side::US.opposite(), Side::USSR);
}

#[test]
fn region_lists_match_membership() {
    for region in Region::major_regions() {
        let list = region.all_countries();
        for index in 0..NUM_COUNTRIES {
            assert_eq!(list.contains(&index), region.has_country(index));
        }
        let mut sorted = list.clone();
        sorted.dedup();
        assert_eq!(sorted.len(), list.len());
    }
}
