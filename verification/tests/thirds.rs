use wiradesk::arrangement::thirds::{
    plan_snap_third, plan_snap_third_left, plan_snap_third_middle, plan_snap_third_right,
    ThirdColumn,
};
use wiradesk::arrangement::{PlacementPlan, PlanError, Rect, WorkArea};
use wiradesk::cycling::WindowId;

fn primary_work_area() -> WorkArea {
    WorkArea::new(Rect::new(0, 0, 1920, 1040).unwrap(), 96).unwrap()
}

fn negative_origin_work_area() -> WorkArea {
    WorkArea::new(Rect::new(-1920, -200, 0, 880).unwrap(), 120).unwrap()
}

fn odd_width_work_area() -> WorkArea {
    WorkArea::new(Rect::new(0, 0, 1367, 769).unwrap(), 144).unwrap()
}

fn dpi_variants() -> Vec<WorkArea> {
    [96u32, 120, 144, 192]
        .into_iter()
        .map(|dpi| WorkArea::new(Rect::new(0, 0, 1920, 1040).unwrap(), dpi).unwrap())
        .collect()
}

fn only(plan: &PlacementPlan) -> Rect {
    assert_eq!(plan.placements.len(), 1);
    plan.placements[0].rect
}

const W: WindowId = WindowId(1);

#[test]
fn thirds_tile_the_work_area_without_gap_or_overlap() {
    let work = primary_work_area();
    let left = only(&plan_snap_third(&work, W, ThirdColumn::Left).unwrap());
    let middle = only(&plan_snap_third(&work, W, ThirdColumn::Middle).unwrap());
    let right = only(&plan_snap_third(&work, W, ThirdColumn::Right).unwrap());
    assert_eq!(left.left, work.rect.left);
    assert_eq!(right.right, work.rect.right);
    assert_eq!(left.right, middle.left);
    assert_eq!(middle.right, right.left);
    assert_eq!(left.top, work.rect.top);
    assert_eq!(left.bottom, work.rect.bottom);
    assert_eq!(middle.top, work.rect.top);
    assert_eq!(middle.bottom, work.rect.bottom);
    assert_eq!(right.top, work.rect.top);
    assert_eq!(right.bottom, work.rect.bottom);
    assert_eq!(left.width() + middle.width() + right.width(), work.rect.width());
}

#[test]
fn remainder_width_goes_to_the_middle_column() {
    let work = odd_width_work_area();
    assert_eq!(work.rect.width(), 1367);
    let left = only(&plan_snap_third(&work, W, ThirdColumn::Left).unwrap());
    let middle = only(&plan_snap_third(&work, W, ThirdColumn::Middle).unwrap());
    let right = only(&plan_snap_third(&work, W, ThirdColumn::Right).unwrap());
    assert_eq!(left.width(), 455);
    assert_eq!(middle.width(), 457);
    assert_eq!(right.width(), 455);
    assert_eq!(left.width() + middle.width() + right.width(), 1367);
    let work1000 = WorkArea::new(Rect::new(0, 0, 1000, 600).unwrap(), 96).unwrap();
    let l = only(&plan_snap_third(&work1000, W, ThirdColumn::Left).unwrap());
    let m = only(&plan_snap_third(&work1000, W, ThirdColumn::Middle).unwrap());
    let r = only(&plan_snap_third(&work1000, W, ThirdColumn::Right).unwrap());
    assert_eq!(l.width(), 333);
    assert_eq!(m.width(), 334);
    assert_eq!(r.width(), 333);
    assert_eq!(l.width() + m.width() + r.width(), 1000);
}

#[test]
fn narrow_work_area_is_refused() {
    let narrow = WorkArea::new(Rect::new(0, 0, 2, 100).unwrap(), 96).unwrap();
    assert!(plan_snap_third(&narrow, W, ThirdColumn::Left).is_err());
    assert!(plan_snap_third(&narrow, W, ThirdColumn::Middle).is_err());
    assert!(plan_snap_third(&narrow, W, ThirdColumn::Right).is_err());
    let narrow1 = WorkArea::new(Rect::new(0, 0, 1, 100).unwrap(), 96).unwrap();
    assert!(plan_snap_third(&narrow1, W, ThirdColumn::Left).is_err());
}

#[test]
fn negative_origin_work_area_is_supported() {
    let work = negative_origin_work_area();
    let left = only(&plan_snap_third(&work, W, ThirdColumn::Left).unwrap());
    let middle = only(&plan_snap_third(&work, W, ThirdColumn::Middle).unwrap());
    let right = only(&plan_snap_third(&work, W, ThirdColumn::Right).unwrap());
    assert_eq!(left.left, -1920);
    assert_eq!(left.right, -1280);
    assert_eq!(middle.left, -1280);
    assert_eq!(middle.right, -640);
    assert_eq!(right.left, -640);
    assert_eq!(right.right, 0);
    assert_eq!(left.width() + middle.width() + right.width(), 1920);
}

#[test]
fn thirds_stay_inside_the_work_area() {
    for work in [primary_work_area(), negative_origin_work_area(), odd_width_work_area()] {
        assert!(plan_snap_third(&work, W, ThirdColumn::Left).unwrap().fits_within(&work.rect));
        assert!(plan_snap_third(&work, W, ThirdColumn::Middle).unwrap().fits_within(&work.rect));
        assert!(plan_snap_third(&work, W, ThirdColumn::Right).unwrap().fits_within(&work.rect));
    }
}

#[test]
fn thirds_identical_geometry_yields_identical_plans_at_every_dpi() {
    let mut seen: Option<(Rect, Rect, Rect)> = None;
    for work in dpi_variants() {
        let triple = (
            only(&plan_snap_third(&work, W, ThirdColumn::Left).unwrap()),
            only(&plan_snap_third(&work, W, ThirdColumn::Middle).unwrap()),
            only(&plan_snap_third(&work, W, ThirdColumn::Right).unwrap()),
        );
        match &seen {
            None => seen = Some(triple),
            Some(prev) => assert_eq!(*prev, triple, "DPI {} changed the plan", work.dpi),
        }
    }
}

#[test]
fn thirds_empty_work_area_fails_without_placement() {
    let empty = WorkArea { rect: Rect { left: 0, top: 0, right: 0, bottom: 1040 }, dpi: 96 };
    for result in [
        plan_snap_third(&empty, W, ThirdColumn::Left),
        plan_snap_third(&empty, W, ThirdColumn::Middle),
        plan_snap_third(&empty, W, ThirdColumn::Right),
    ] {
        assert_eq!(result, Err(PlanError::EmptyOrInvertedWorkArea));
    }
}

#[test]
fn thirds_inverted_work_area_fails_without_placement() {
    let inverted = WorkArea { rect: Rect { left: 100, top: 0, right: 10, bottom: 100 }, dpi: 96 };
    for result in [
        plan_snap_third(&inverted, W, ThirdColumn::Left),
        plan_snap_third(&inverted, W, ThirdColumn::Middle),
        plan_snap_third(&inverted, W, ThirdColumn::Right),
    ] {
        assert_eq!(result, Err(PlanError::EmptyOrInvertedWorkArea));
    }
}

#[test]
fn the_named_third_planners_agree_with_the_general_one() {
    let work = odd_width_work_area();
    assert_eq!(plan_snap_third_left(&work, W), plan_snap_third(&work, W, ThirdColumn::Left));
    assert_eq!(plan_snap_third_middle(&work, W), plan_snap_third(&work, W, ThirdColumn::Middle));
    assert_eq!(plan_snap_third_right(&work, W), plan_snap_third(&work, W, ThirdColumn::Right));
}
