//! The mapping tables shipped with the library: a selection of the AndroidX
//! migration mappings, as CSV text.
use vstd::prelude::*;

verus! {

/// Classes under `android.support`.
pub const SUPPORT_MAPPING_CSV: &'static str = "Support Library class,Android X class
android.support.animation.DynamicAnimation,androidx.dynamicanimation.animation.DynamicAnimation
android.support.animation.Force,androidx.dynamicanimation.animation.Force
android.support.animation.SpringAnimation,androidx.dynamicanimation.animation.SpringAnimation
android.support.animation.SpringForce,androidx.dynamicanimation.animation.SpringForce
android.support.annotation.AnyRes,androidx.annotation.AnyRes
android.support.annotation.ColorInt,androidx.annotation.ColorInt
android.support.annotation.DrawableRes,androidx.annotation.DrawableRes
android.support.annotation.IntDef,androidx.annotation.IntDef
android.support.annotation.MainThread,androidx.annotation.MainThread
android.support.annotation.NonNull,androidx.annotation.NonNull
android.support.annotation.Nullable,androidx.annotation.Nullable
android.support.annotation.StringRes,androidx.annotation.StringRes
android.support.annotation.VisibleForTesting,androidx.annotation.VisibleForTesting
android.support.annotation.WorkerThread,androidx.annotation.WorkerThread
android.support.constraint.ConstraintLayout,androidx.constraintlayout.widget.ConstraintLayout
android.support.constraint.ConstraintSet,androidx.constraintlayout.widget.ConstraintSet
android.support.constraint.Group,androidx.constraintlayout.widget.Group
android.support.constraint.Guideline,androidx.constraintlayout.widget.Guideline
android.support.design.card.MaterialCardView,com.google.android.material.card.MaterialCardView
android.support.design.drawable.DrawableUtils,com.google.android.material.drawable.DrawableUtils
android.support.design.widget.AppBarLayout,com.google.android.material.appbar.AppBarLayout
android.support.design.widget.BottomSheetBehavior,com.google.android.material.bottomsheet.BottomSheetBehavior
android.support.design.widget.CoordinatorLayout,androidx.coordinatorlayout.widget.CoordinatorLayout
android.support.design.widget.FloatingActionButton,com.google.android.material.floatingactionbutton.FloatingActionButton
android.support.design.widget.Snackbar,com.google.android.material.snackbar.Snackbar
android.support.design.widget.TabLayout,com.google.android.material.tabs.TabLayout
android.support.design.widget.TextInputLayout,com.google.android.material.textfield.TextInputLayout
android.support.v4.app.ActivityCompat,androidx.core.app.ActivityCompat
android.support.v4.app.DialogFragment,androidx.fragment.app.DialogFragment
android.support.v4.app.Fragment,androidx.fragment.app.Fragment
android.support.v4.app.FragmentActivity,androidx.fragment.app.FragmentActivity
android.support.v4.app.FragmentManager,androidx.fragment.app.FragmentManager
android.support.v4.app.FragmentTransaction,androidx.fragment.app.FragmentTransaction
android.support.v4.app.NotificationCompat,androidx.core.app.NotificationCompat
android.support.v4.content.ContextCompat,androidx.core.content.ContextCompat
android.support.v4.view.ViewCompat,androidx.core.view.ViewCompat
android.support.v4.view.ViewPager,androidx.viewpager.widget.ViewPager
android.support.v4.widget.DrawerLayout,androidx.drawerlayout.widget.DrawerLayout
android.support.v4.widget.SwipeRefreshLayout,androidx.swiperefreshlayout.widget.SwipeRefreshLayout
android.support.v4.widget.TextViewCompat,androidx.core.widget.TextViewCompat
android.support.v7.app.AlertDialog,androidx.appcompat.app.AlertDialog
android.support.v7.app.AppCompatActivity,androidx.appcompat.app.AppCompatActivity
android.support.v7.widget.CardView,androidx.cardview.widget.CardView
android.support.v7.widget.LinearLayoutManager,androidx.recyclerview.widget.LinearLayoutManager
android.support.v7.widget.RecyclerView,androidx.recyclerview.widget.RecyclerView
android.support.v7.widget.Toolbar,androidx.appcompat.widget.Toolbar
android.support.v7.widget.ToolbarWidgetWrapper,androidx.appcompat.widget.ToolbarWidgetWrapper
";

/// Classes under `android.arch`.
pub const ARCH_MAPPING_CSV: &'static str = "Support Library class,Android X class
android.arch.core.util.Function,androidx.arch.core.util.Function
android.arch.lifecycle.Lifecycle,androidx.lifecycle.Lifecycle
android.arch.lifecycle.LifecycleOwner,androidx.lifecycle.LifecycleOwner
android.arch.lifecycle.LiveData,androidx.lifecycle.LiveData
android.arch.lifecycle.MutableLiveData,androidx.lifecycle.MutableLiveData
android.arch.lifecycle.Observer,androidx.lifecycle.Observer
android.arch.lifecycle.ViewModel,androidx.lifecycle.ViewModel
android.arch.lifecycle.ViewModelProvider,androidx.lifecycle.ViewModelProvider
android.arch.lifecycle.ViewModelProviders,androidx.lifecycle.ViewModelProviders
android.arch.paging.DataSource,androidx.paging.DataSource
android.arch.paging.PageResult,androidx.paging.PageResult
android.arch.paging.PagedList,androidx.paging.PagedList
android.arch.persistence.room.Dao,androidx.room.Dao
android.arch.persistence.room.Entity,androidx.room.Entity
android.arch.persistence.room.ForeignKey,androidx.room.ForeignKey
android.arch.persistence.room.Query,androidx.room.Query
android.arch.persistence.room.Room,androidx.room.Room
";

/// Classes under `android.databinding`.
pub const DATABIND_MAPPING_CSV: &'static str = "Support Library class,Android X class
android.databinding.adapters.AbsListViewBindingAdapter,androidx.databinding.adapters.AbsListViewBindingAdapter
android.databinding.adapters.TextViewBindingAdapter,androidx.databinding.adapters.TextViewBindingAdapter
android.databinding.BaseObservable,androidx.databinding.BaseObservable
android.databinding.Bindable,androidx.databinding.Bindable
android.databinding.BindingAdapter,androidx.databinding.BindingAdapter
android.databinding.DataBindingUtil,androidx.databinding.DataBindingUtil
android.databinding.Observable,androidx.databinding.Observable
android.databinding.ObservableBoolean,androidx.databinding.ObservableBoolean
android.databinding.ObservableField,androidx.databinding.ObservableField
android.databinding.ObservableInt,androidx.databinding.ObservableInt
android.databinding.ViewDataBinding,androidx.databinding.ViewDataBinding
";

/// Build artifacts, by group and name.
pub const ARTIFACT_MAPPING_CSV: &'static str = "Old build artifact,AndroidX build artifact
android.arch.core:common,androidx.arch.core:core-common:2.0.0
android.arch.core:core,androidx.arch.core:core:2.0.0
android.arch.core:core-testing,androidx.arch.core:core-testing:2.0.0
android.arch.core:runtime,androidx.arch.core:core-runtime:2.0.0
android.arch.lifecycle:extensions,androidx.lifecycle:lifecycle-extensions:2.0.0
android.arch.lifecycle:livedata,androidx.lifecycle:lifecycle-livedata:2.0.0
android.arch.lifecycle:viewmodel,androidx.lifecycle:lifecycle-viewmodel:2.0.0
android.arch.paging:runtime,androidx.paging:paging-runtime:2.0.0
android.arch.persistence.room:compiler,androidx.room:room-compiler:2.0.0
android.arch.persistence.room:runtime,androidx.room:room-runtime:2.0.0
com.android.support:appcompat-v7,androidx.appcompat:appcompat:1.0.0
com.android.support:car,androidx.car:car:1.0.0-alpha5
com.android.support:cardview-v7,androidx.cardview:cardview:1.0.0
com.android.support:collections,androidx.collection:collection:1.0.0
com.android.support:design,com.google.android.material:material:1.0.0
com.android.support:recyclerview-v7,androidx.recyclerview:recyclerview:1.0.0
com.android.support:support-annotations,androidx.annotation:annotation:1.0.0
com.android.support:support-compat,androidx.core:core:1.0.0
com.android.support:support-fragment,androidx.fragment:fragment:1.0.0
com.android.support.constraint:constraint-layout,androidx.constraintlayout:constraintlayout:1.1.2
com.android.support.test:monitor,androidx.test:monitor:1.1.0
com.android.support.test:runner,androidx.test:runner:1.1.0
com.android.support.test.espresso:espresso-core,androidx.test.espresso:espresso-core:3.1.0
";

} // verus!
