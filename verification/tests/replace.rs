use xelis_wallet::replace::{begin, is_over, next, ReplaceAction, ReplaceState};

#[test]
fn a_replacement_that_goes_well() {
    let (state, action) = begin();
    assert_eq!((state, action), (ReplaceState::Staging, ReplaceAction::WriteStaging));
    assert!(!is_over(state));
    let (state, action) = next(state, true);
    assert_eq!((state, action), (ReplaceState::Flushing, ReplaceAction::FlushStaging));
    let (state, action) = next(state, true);
    assert_eq!((state, action), (ReplaceState::Swapping, ReplaceAction::SwapIntoPlace));
    assert!(!is_over(state));
    let (state, action) = next(state, true);
    assert_eq!((state, action), (ReplaceState::Done, ReplaceAction::Finish));
    assert!(is_over(state));
    assert_eq!(next(state, false), (ReplaceState::Done, ReplaceAction::Finish));
}

#[test]
fn a_failed_write_is_cleaned_up() {
    let (state, _) = begin();
    let (state, action) = next(state, false);
    assert_eq!((state, action), (ReplaceState::Cleaning, ReplaceAction::RemoveStaging));
    let (state, action) = next(state, true);
    assert_eq!((state, action), (ReplaceState::Failed, ReplaceAction::GiveUp));
    assert!(is_over(state));
}

#[test]
fn a_failed_flush_or_swap_never_reaches_the_store() {
    let (state, _) = begin();
    let (flushing, _) = next(state, true);
    assert_eq!(next(flushing, false), (ReplaceState::Cleaning, ReplaceAction::RemoveStaging));
    let (swapping, _) = next(flushing, true);
    assert_eq!(next(swapping, false), (ReplaceState::Cleaning, ReplaceAction::RemoveStaging));
    assert_eq!(
        next(ReplaceState::Cleaning, false),
        (ReplaceState::Failed, ReplaceAction::GiveUp)
    );
    assert_eq!(next(ReplaceState::Failed, true), (ReplaceState::Failed, ReplaceAction::GiveUp));
}
