use audio_config_manager::app_routing::watch::WatchState;

#[test]
fn seed_baseline_ne_notifie_pas() {
    let mut state = WatchState::seed("A".into(), "M".into());
    // Même valeur que la baseline (rafale de rôles) → aucune notification.
    assert_eq!(state.accept(0, "A".into()), None);
    assert_eq!(state.accept(1, "M".into()), None);
}

#[test]
fn changement_sortie_notifie_une_fois_malgre_les_roles() {
    let mut state = WatchState::seed("A".into(), "M".into());
    // Console : changement réel → notification.
    assert_eq!(state.accept(0, "B".into()), Some(("B".into(), "M".into())));
    // Multimédia + communications (même valeur, même bascule) → non.
    assert_eq!(state.accept(0, "B".into()), None);
    assert_eq!(state.accept(0, "B".into()), None);
}

#[test]
fn changement_entree_ne_touchepas_la_sortie() {
    let mut state = WatchState::seed("A".into(), "M".into());
    assert_eq!(state.accept(1, "N".into()), Some(("A".into(), "N".into())));
}

#[test]
fn flux_inconnu_ignore() {
    let mut state = WatchState::seed("A".into(), "M".into());
    assert_eq!(state.accept(2, "X".into()), None);
    assert_eq!(state.accept(-1, "X".into()), None);
    assert_eq!(state.current, ("A".into(), "M".into()));
}

#[test]
fn aller_retour_notifie_chaque_fois() {
    let mut state = WatchState::seed("A".into(), "M".into());
    assert!(state.accept(0, "B".into()).is_some());
    assert!(state.accept(0, "A".into()).is_some());
    // Puis rafale sur la valeur finale → plus rien.
    assert_eq!(state.accept(0, "A".into()), None);
}
